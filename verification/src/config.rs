//! Runtime configuration.

use crate::net::{IpAddr, Ipv4Addr, SocketAddr};
use std::collections::HashSet;
use std::time::Duration;
use vstd::prelude::*;
use vstd::string::StringExecFns;

verus! {

broadcast use vstd::std_specs::hash::group_hash_axioms;

/// Why an address was refused.
#[derive(Clone, Copy, PartialEq, Eq, Structural, Debug)]
pub enum InvalidAddressError {
    /// A multicast address is required.
    NotMulticast(Ipv4Addr),
    /// A unicast address is required.
    IsMulticast(Ipv4Addr),
    /// `0.0.0.0`.
    Unspecified,
    /// `255.255.255.255`.
    IsBroadcast,
    /// No IPv4 address at all.
    ParseError,
}

impl InvalidAddressError {
    /// The text that describes the error.
    pub open spec fn describes(self) -> Seq<char> {
        match self {
            InvalidAddressError::NotMulticast(ip) => ip.dotted()
                + " is not a multicast address (must be in 224.0.0.0/4)"@,
            InvalidAddressError::IsMulticast(ip) => ip.dotted()
                + " is a multicast address; a unicast address is required"@,
            InvalidAddressError::Unspecified =>
                "0.0.0.0 is not a valid unicast address; specify a routable IP"@,
            InvalidAddressError::IsBroadcast =>
                "255.255.255.255 is not a valid unicast address"@,
            InvalidAddressError::ParseError => "not a valid IPv4 address"@,
        }
    }

    /// The text that describes the error.
    pub fn text(&self) -> (r: String)
        ensures
            r@ == self.describes(),
    {
        match self {
            InvalidAddressError::NotMulticast(ip) => ip.text().concat(
                " is not a multicast address (must be in 224.0.0.0/4)",
            ),
            InvalidAddressError::IsMulticast(ip) => ip.text().concat(
                " is a multicast address; a unicast address is required",
            ),
            InvalidAddressError::Unspecified => String::from_str(
                "0.0.0.0 is not a valid unicast address; specify a routable IP",
            ),
            InvalidAddressError::IsBroadcast => String::from_str(
                "255.255.255.255 is not a valid unicast address",
            ),
            InvalidAddressError::ParseError => String::from_str("not a valid IPv4 address"),
        }
    }
}

/// An IPv4 address in `224.0.0.0/4`.
#[derive(Clone, Copy, PartialEq, Eq, Structural, Debug, Hash)]
pub struct MulticastAddress(Ipv4Addr);

impl View for MulticastAddress {
    type V = Ipv4Addr;

    closed spec fn view(&self) -> Ipv4Addr {
        self.0
    }
}

impl MulticastAddress {
    #[verifier::type_invariant]
    spec fn is_multicast(self) -> bool {
        self.0.multicast()
    }

    /// The address as a value of this type.
    pub closed spec fn of(ip: Ipv4Addr) -> MulticastAddress {
        MulticastAddress(ip)
    }

    /// `of` and the view undo each other.
    pub broadcast proof fn of_view(ip: Ipv4Addr)
        ensures
            (#[trigger] MulticastAddress::of(ip))@ == ip,
    {
    }

    /// The address.
    pub fn get(self) -> (r: Ipv4Addr)
        ensures
            r == self@,
            r.multicast(),
    {
        proof {
            use_type_invariant(self);
        }
        self.0
    }

    /// The address, where `ip` is a multicast address.
    pub fn static_try_from(ip: Ipv4Addr) -> (r: Option<Self>)
        ensures
            r == (if ip.multicast() {
                Some(MulticastAddress::of(ip))
            } else {
                None
            }),
            r matches Some(m) ==> m@ == ip,
    {
        if ip.is_multicast() {
            Some(MulticastAddress(ip))
        } else {
            None
        }
    }

    /// The address that `text` spells, where it is a multicast address.
    pub fn parse(text: &str) -> (r: Result<Self, InvalidAddressError>)
        ensures
            match r {
                Ok(m) => text@ == m@.dotted() && m@.multicast(),
                Err(InvalidAddressError::NotMulticast(ip)) => text@ == ip.dotted()
                    && !ip.multicast(),
                Err(e) => e == InvalidAddressError::ParseError && forall|ip: Ipv4Addr|
                    text@ != #[trigger] ip.dotted(),
            },
    {
        match Ipv4Addr::parse(text) {
            Some(ip) => MulticastAddress::try_from(ip),
            None => Err(InvalidAddressError::ParseError),
        }
    }

    /// The address in dotted decimal.
    pub fn text(&self) -> (r: String)
        ensures
            r@ == self@.dotted(),
    {
        self.0.text()
    }
}

impl TryFrom<Ipv4Addr> for MulticastAddress {
    type Error = InvalidAddressError;

    fn try_from(ip: Ipv4Addr) -> (r: Result<Self, InvalidAddressError>) {
        if ip.is_multicast() {
            Ok(MulticastAddress(ip))
        } else {
            Err(InvalidAddressError::NotMulticast(ip))
        }
    }
}

impl vstd::std_specs::convert::TryFromSpecImpl<Ipv4Addr> for MulticastAddress {
    open spec fn obeys_try_from_spec() -> bool {
        true
    }

    open spec fn try_from_spec(ip: Ipv4Addr) -> Result<MulticastAddress, InvalidAddressError> {
        if ip.multicast() {
            Ok(MulticastAddress::of(ip))
        } else {
            Err(InvalidAddressError::NotMulticast(ip))
        }
    }
}

impl TryFrom<IpAddr> for MulticastAddress {
    type Error = InvalidAddressError;

    fn try_from(ip: IpAddr) -> (r: Result<Self, InvalidAddressError>) {
        match ip {
            IpAddr::V4(v4) => {
                if v4.is_multicast() {
                    Ok(MulticastAddress(v4))
                } else {
                    Err(InvalidAddressError::NotMulticast(v4))
                }
            },
            IpAddr::V6(_) => Err(InvalidAddressError::ParseError),
        }
    }
}

impl vstd::std_specs::convert::TryFromSpecImpl<IpAddr> for MulticastAddress {
    open spec fn obeys_try_from_spec() -> bool {
        true
    }

    open spec fn try_from_spec(ip: IpAddr) -> Result<MulticastAddress, InvalidAddressError> {
        match ip {
            IpAddr::V4(v4) => if v4.multicast() {
                Ok(MulticastAddress::of(v4))
            } else {
                Err(InvalidAddressError::NotMulticast(v4))
            },
            IpAddr::V6(_) => Err(InvalidAddressError::ParseError),
        }
    }
}

impl From<MulticastAddress> for Ipv4Addr {
    fn from(addr: MulticastAddress) -> (r: Ipv4Addr) {
        addr.get()
    }
}

impl vstd::std_specs::convert::FromSpecImpl<MulticastAddress> for Ipv4Addr {
    open spec fn obeys_from_spec() -> bool {
        true
    }

    open spec fn from_spec(addr: MulticastAddress) -> Ipv4Addr {
        addr@
    }
}

impl From<MulticastAddress> for IpAddr {
    fn from(addr: MulticastAddress) -> (r: IpAddr) {
        IpAddr::V4(addr.get())
    }
}

impl vstd::std_specs::convert::FromSpecImpl<MulticastAddress> for IpAddr {
    open spec fn obeys_from_spec() -> bool {
        true
    }

    open spec fn from_spec(addr: MulticastAddress) -> IpAddr {
        IpAddr::V4(addr@)
    }
}

/// An IPv4 address that names one host.
#[derive(Clone, Copy, PartialEq, Eq, Structural, Debug, Hash)]
pub struct UnicastAddress(Ipv4Addr);

impl View for UnicastAddress {
    type V = Ipv4Addr;

    closed spec fn view(&self) -> Ipv4Addr {
        self.0
    }
}

impl UnicastAddress {
    #[verifier::type_invariant]
    spec fn is_unicast(self) -> bool {
        Self::allowed(self.0)
    }

    /// Neither unspecified, nor multicast, nor broadcast.
    pub open spec fn allowed(ip: Ipv4Addr) -> bool {
        !ip.unspecified() && !ip.multicast() && !ip.broadcast()
    }

    /// The address as a value of this type.
    pub closed spec fn of(ip: Ipv4Addr) -> UnicastAddress {
        UnicastAddress(ip)
    }

    /// `of` and the view undo each other.
    pub broadcast proof fn of_view(ip: Ipv4Addr)
        ensures
            (#[trigger] UnicastAddress::of(ip))@ == ip,
    {
    }

    /// What `ip` is accepted as, or why it is refused; the first reason counts.
    pub open spec fn judged(ip: Ipv4Addr) -> Result<UnicastAddress, InvalidAddressError> {
        if ip.unspecified() {
            Err(InvalidAddressError::Unspecified)
        } else if ip.multicast() {
            Err(InvalidAddressError::IsMulticast(ip))
        } else if ip.broadcast() {
            Err(InvalidAddressError::IsBroadcast)
        } else {
            Ok(UnicastAddress::of(ip))
        }
    }

    fn judge(ip: Ipv4Addr) -> (r: Result<Self, InvalidAddressError>)
        ensures
            r == Self::judged(ip),
    {
        if ip.is_unspecified() {
            Err(InvalidAddressError::Unspecified)
        } else if ip.is_multicast() {
            Err(InvalidAddressError::IsMulticast(ip))
        } else if ip.is_broadcast() {
            Err(InvalidAddressError::IsBroadcast)
        } else {
            Ok(UnicastAddress(ip))
        }
    }

    /// The address.
    pub fn get(self) -> (r: Ipv4Addr)
        ensures
            r == self@,
            Self::allowed(r),
    {
        proof {
            use_type_invariant(self);
        }
        self.0
    }

    /// The address that `text` spells, where it is a unicast address.
    pub fn parse(text: &str) -> (r: Result<Self, InvalidAddressError>)
        ensures
            forall|ip: Ipv4Addr| text@ == #[trigger] ip.dotted() ==> r == Self::judged(ip),
            (forall|ip: Ipv4Addr| text@ != #[trigger] ip.dotted()) ==> r == Err::<
                Self,
                InvalidAddressError,
            >(InvalidAddressError::ParseError),
    {
        match Ipv4Addr::parse(text) {
            Some(ip) => Self::judge(ip),
            None => Err(InvalidAddressError::ParseError),
        }
    }

    /// The address in dotted decimal.
    pub fn text(&self) -> (r: String)
        ensures
            r@ == self@.dotted(),
    {
        self.0.text()
    }
}

impl TryFrom<Ipv4Addr> for UnicastAddress {
    type Error = InvalidAddressError;

    fn try_from(ip: Ipv4Addr) -> (r: Result<Self, InvalidAddressError>) {
        UnicastAddress::judge(ip)
    }
}

impl vstd::std_specs::convert::TryFromSpecImpl<Ipv4Addr> for UnicastAddress {
    open spec fn obeys_try_from_spec() -> bool {
        true
    }

    open spec fn try_from_spec(ip: Ipv4Addr) -> Result<UnicastAddress, InvalidAddressError> {
        UnicastAddress::judged(ip)
    }
}

impl TryFrom<IpAddr> for UnicastAddress {
    type Error = InvalidAddressError;

    fn try_from(ip: IpAddr) -> (r: Result<Self, InvalidAddressError>) {
        match ip {
            IpAddr::V4(v4) => UnicastAddress::judge(v4),
            IpAddr::V6(_) => Err(InvalidAddressError::ParseError),
        }
    }
}

impl vstd::std_specs::convert::TryFromSpecImpl<IpAddr> for UnicastAddress {
    open spec fn obeys_try_from_spec() -> bool {
        true
    }

    open spec fn try_from_spec(ip: IpAddr) -> Result<UnicastAddress, InvalidAddressError> {
        match ip {
            IpAddr::V4(v4) => UnicastAddress::judged(v4),
            IpAddr::V6(_) => Err(InvalidAddressError::ParseError),
        }
    }
}

impl From<UnicastAddress> for Ipv4Addr {
    fn from(addr: UnicastAddress) -> (r: Ipv4Addr) {
        addr.get()
    }
}

impl vstd::std_specs::convert::FromSpecImpl<UnicastAddress> for Ipv4Addr {
    open spec fn obeys_from_spec() -> bool {
        true
    }

    open spec fn from_spec(addr: UnicastAddress) -> Ipv4Addr {
        addr@
    }
}

/// The port of service discovery.
pub const DEFAULT_SD_PORT: u16 = 30490;

/// Default lifetime of an entry, in seconds.
pub const DEFAULT_TTL: u32 = 3600;

/// The largest lifetime: valid until the next reboot.
pub const SD_TTL_INFINITE: u32 = 0xFF_FFFF;

/// Default lifetime of an offer, in seconds.
pub const DEFAULT_OFFER_TTL: u32 = 3600;

/// Default lifetime of a find entry, in seconds.
pub const DEFAULT_FIND_TTL: u32 = 3600;

/// Default lifetime of a subscription, in seconds.
pub const DEFAULT_SUBSCRIBE_TTL: u32 = 3600;

/// Default time between two offers, in milliseconds.
pub const DEFAULT_CYCLIC_OFFER_DELAY: u64 = 1000;

/// How often a find entry is repeated.
pub const DEFAULT_FIND_REPETITIONS: u32 = 3;

/// `ttl` within 24 bits.
pub open spec fn clamped_ttl(ttl: u32) -> u32 {
    if ttl > SD_TTL_INFINITE {
        SD_TTL_INFINITE
    } else {
        ttl
    }
}

/// `ttl`, or the largest 24-bit lifetime where it does not fit in 24 bits. The name of
/// the setting is for the caller's diagnostics.
pub fn clamp_ttl_to_24bit(ttl: u32, field_name: &str) -> (r: u32)
    ensures
        r == clamped_ttl(ttl),
{
    let _ = field_name;
    if ttl > SD_TTL_INFINITE {
        SD_TTL_INFINITE
    } else {
        ttl
    }
}

/// A clamped lifetime fits in 24 bits, is kept by clamping again, and is the lifetime
/// itself where that fits.
pub proof fn ttl_clamping(ttl: u32)
    ensures
        clamped_ttl(ttl) <= 0xFF_FFFF,
        clamped_ttl(clamped_ttl(ttl)) == clamped_ttl(ttl),
        ttl <= 0xFF_FFFF ==> clamped_ttl(ttl) == ttl,
        clamped_ttl(ttl) == ttl || clamped_ttl(ttl) == SD_TTL_INFINITE,
{
}

/// Transport of requests and events. Service discovery always uses UDP.
#[derive(Clone, Copy, PartialEq, Eq, Structural, Debug, Hash)]
pub enum Transport {
    /// UDP.
    Udp,
    /// TCP.
    Tcp,
}

impl Default for Transport {
    fn default() -> (r: Self)
        ensures
            r == Transport::Udp,
    {
        Transport::Udp
    }
}

/// The local port of a client socket.
#[derive(Clone, Copy, PartialEq, Eq, Structural, Debug, Hash)]
pub enum PortSpec {
    /// Any free port.
    Any,
    /// Exactly this port.
    Fixed(u16),
}

impl Default for PortSpec {
    fn default() -> (r: Self)
        ensures
            r == PortSpec::Any,
    {
        PortSpec::Any
    }
}

/// One entry of a [`TransportPolicy`].
#[derive(Clone, Copy, PartialEq, Eq, Structural, Debug, Hash)]
pub struct TransportPreference {
    /// Which transport of the server to accept.
    pub transport: Transport,
    /// Which local port to bind to.
    pub local_port: PortSpec,
}

impl TransportPreference {
    /// TCP, from any local port.
    pub fn tcp() -> (r: Self)
        ensures
            r == (TransportPreference { transport: Transport::Tcp, local_port: PortSpec::Any }),
    {
        TransportPreference { transport: Transport::Tcp, local_port: PortSpec::Any }
    }

    /// UDP, from any local port.
    pub fn udp() -> (r: Self)
        ensures
            r == (TransportPreference { transport: Transport::Udp, local_port: PortSpec::Any }),
    {
        TransportPreference { transport: Transport::Udp, local_port: PortSpec::Any }
    }

    /// The same transport, from the given local port.
    pub fn with_port(self, port: u16) -> (r: Self)
        ensures
            r == (TransportPreference {
                transport: self.transport,
                local_port: PortSpec::Fixed(port),
            }),
    {
        TransportPreference { transport: self.transport, local_port: PortSpec::Fixed(port) }
    }
}

/// The endpoints at which a server offers a service.
#[derive(Clone, Copy, PartialEq, Eq, Structural, Debug)]
pub enum OfferedEndpoints {
    /// UDP alone.
    UdpOnly(SocketAddr),
    /// TCP alone.
    TcpOnly(SocketAddr),
    /// Both.
    Both {
        /// The UDP endpoint.
        udp: SocketAddr,
        /// The TCP endpoint.
        tcp: SocketAddr,
    },
}

impl OfferedEndpoints {
    /// The endpoint that is offered for a transport.
    pub open spec fn endpoint(self, transport: Transport) -> Option<SocketAddr> {
        match (transport, self) {
            (Transport::Tcp, OfferedEndpoints::TcpOnly(addr)) => Some(addr),
            (Transport::Tcp, OfferedEndpoints::Both { tcp, .. }) => Some(tcp),
            (Transport::Udp, OfferedEndpoints::UdpOnly(addr)) => Some(addr),
            (Transport::Udp, OfferedEndpoints::Both { udp, .. }) => Some(udp),
            _ => None,
        }
    }

    /// The endpoint that is offered for a transport.
    pub fn endpoint_for(&self, transport: Transport) -> (r: Option<SocketAddr>)
        ensures
            r == self.endpoint(transport),
    {
        match (transport, *self) {
            (Transport::Tcp, OfferedEndpoints::TcpOnly(addr)) => Some(addr),
            (Transport::Tcp, OfferedEndpoints::Both { tcp, .. }) => Some(tcp),
            (Transport::Udp, OfferedEndpoints::UdpOnly(addr)) => Some(addr),
            (Transport::Udp, OfferedEndpoints::Both { udp, .. }) => Some(udp),
            _ => None,
        }
    }
}

/// What a [`TransportPolicy`] selects.
#[derive(Clone, Copy, PartialEq, Eq, Structural, Debug)]
pub struct TransportSelection {
    /// The server's endpoint.
    pub remote_endpoint: SocketAddr,
    /// The transport.
    pub transport: Transport,
    /// The local port.
    pub local_port: PortSpec,
}

/// Transport preferences, the first that the server offers counts.
#[derive(Debug)]
pub struct TransportPolicy(Vec<TransportPreference>);

impl View for TransportPolicy {
    type V = Seq<TransportPreference>;

    closed spec fn view(&self) -> Seq<TransportPreference> {
        self.0@
    }
}

/// TCP first, then UDP.
pub open spec fn tcp_then_udp() -> Seq<TransportPreference> {
    seq![
        TransportPreference { transport: Transport::Tcp, local_port: PortSpec::Any },
        TransportPreference { transport: Transport::Udp, local_port: PortSpec::Any },
    ]
}

/// UDP first, then TCP.
pub open spec fn udp_then_tcp() -> Seq<TransportPreference> {
    seq![
        TransportPreference { transport: Transport::Udp, local_port: PortSpec::Any },
        TransportPreference { transport: Transport::Tcp, local_port: PortSpec::Any },
    ]
}

/// The policy that prefers `t` and falls back to the other transport.
pub open spec fn preferring(t: Transport) -> Seq<TransportPreference> {
    match t {
        Transport::Tcp => tcp_then_udp(),
        Transport::Udp => udp_then_tcp(),
    }
}

/// Preference `i` of a policy is the first whose transport is offered.
pub open spec fn first_offered(
    policy: Seq<TransportPreference>,
    endpoints: OfferedEndpoints,
    i: int,
) -> bool {
    &&& 0 <= i < policy.len()
    &&& endpoints.endpoint(policy[i].transport) is Some
    &&& forall|j: int| 0 <= j < i ==> endpoints.endpoint((#[trigger] policy[j]).transport) is None
}

/// No preference of a policy is offered.
pub open spec fn none_offered(
    policy: Seq<TransportPreference>,
    endpoints: OfferedEndpoints,
) -> bool {
    forall|j: int|
        0 <= j < policy.len() ==> endpoints.endpoint((#[trigger] policy[j]).transport) is None
}

/// The transport of the first preference, UDP where there is none.
pub open spec fn primary_of(policy: Seq<TransportPreference>) -> Transport {
    if policy.len() == 0 {
        Transport::Udp
    } else {
        policy[0].transport
    }
}

impl TransportPolicy {
    /// A policy of these preferences, in order.
    pub fn new(preferences: Vec<TransportPreference>) -> (r: Self)
        ensures
            r@ == preferences@,
    {
        TransportPolicy(preferences)
    }

    /// TCP, or else UDP.
    pub fn prefer_tcp() -> (r: Self)
        ensures
            r@ == tcp_then_udp(),
    {
        let r = TransportPolicy(vec![TransportPreference::tcp(), TransportPreference::udp()]);
        assert(r@ =~= tcp_then_udp());
        r
    }

    /// UDP, or else TCP.
    pub fn prefer_udp() -> (r: Self)
        ensures
            r@ == udp_then_tcp(),
    {
        let r = TransportPolicy(vec![TransportPreference::udp(), TransportPreference::tcp()]);
        assert(r@ =~= udp_then_tcp());
        r
    }

    /// The endpoint, transport and local port of the first preference that is offered.
    pub fn select(&self, endpoints: &OfferedEndpoints) -> (r: Option<TransportSelection>)
        ensures
            match r {
                Some(sel) => exists|i: int| #[trigger]
                    first_offered(self@, *endpoints, i) && sel == (TransportSelection {
                        remote_endpoint: endpoints.endpoint(self@[i].transport)->0,
                        transport: self@[i].transport,
                        local_port: self@[i].local_port,
                    }),
                None => none_offered(self@, *endpoints),
            },
    {
        let mut i: usize = 0;
        while i < self.0.len()
            invariant
                0 <= i <= self@.len(),
                self@ == self.0@,
                forall|j: int|
                    0 <= j < i ==> endpoints.endpoint((#[trigger] self@[j]).transport) is None,
            decreases self@.len() - i,
        {
            let pref = self.0[i];
            if let Some(remote_endpoint) = endpoints.endpoint_for(pref.transport) {
                assert(first_offered(self@, *endpoints, i as int));
                return Some(
                    TransportSelection {
                        remote_endpoint,
                        transport: pref.transport,
                        local_port: pref.local_port,
                    },
                );
            }
            i += 1;
        }
        None
    }

    /// The preferences, in order.
    pub fn preferences(&self) -> (r: &[TransportPreference])
        ensures
            r@ == self@,
    {
        self.0.as_slice()
    }

    /// The transport of the first preference, UDP where there is none.
    pub fn primary(&self) -> (r: Transport)
        ensures
            r == primary_of(self@),
    {
        if self.0.len() == 0 {
            Transport::Udp
        } else {
            self.0[0].transport
        }
    }

    /// A policy with the same preferences.
    pub fn duplicate(&self) -> (r: Self)
        ensures
            r@ == self@,
    {
        let mut out: Vec<TransportPreference> = Vec::new();
        let mut i: usize = 0;
        while i < self.0.len()
            invariant
                0 <= i <= self@.len(),
                self@ == self.0@,
                out@ == self@.take(i as int),
            decreases self@.len() - i,
        {
            proof {
                crate::rows::lemma_take_step(self@, i as int);
            }
            out.push(self.0[i]);
            i += 1;
        }
        assert(self@.take(self@.len() as int) =~= self@);
        TransportPolicy(out)
    }
}

impl Default for TransportPolicy {
    fn default() -> (r: Self)
        ensures
            r@ == udp_then_tcp(),
    {
        TransportPolicy::prefer_udp()
    }
}

impl From<Transport> for TransportPolicy {
    fn from(t: Transport) -> (r: Self)
        ensures
            r@ == preferring(t),
    {
        match t {
            Transport::Tcp => TransportPolicy::prefer_tcp(),
            Transport::Udp => TransportPolicy::prefer_udp(),
        }
    }
}

impl vstd::std_specs::convert::FromSpecImpl<Transport> for TransportPolicy {
    open spec fn obeys_from_spec() -> bool {
        false
    }

    open spec fn from_spec(t: Transport) -> TransportPolicy {
        arbitrary()
    }
}

/// What a policy selects is fixed: two preferences cannot both be the first offered, and
/// either one is or none is offered.
pub proof fn selection_is_determined(
    policy: Seq<TransportPreference>,
    endpoints: OfferedEndpoints,
    i: int,
    j: int,
)
    requires
        first_offered(policy, endpoints, i),
        first_offered(policy, endpoints, j),
    ensures
        i == j,
        !none_offered(policy, endpoints),
{
    if i < j {
        assert(endpoints.endpoint(policy[i].transport) is None);
    } else if j < i {
        assert(endpoints.endpoint(policy[j].transport) is None);
    }
    assert(endpoints.endpoint(policy[i].transport) is Some);
}

/// A policy that prefers a transport selects it wherever it is offered, and the other
/// one where that alone is offered: it never selects nothing.
pub proof fn preference_with_fallback(t: Transport, endpoints: OfferedEndpoints)
    ensures
        endpoints.endpoint(t) is Some ==> first_offered(preferring(t), endpoints, 0),
        endpoints.endpoint(t) is None ==> first_offered(preferring(t), endpoints, 1),
        preferring(t)[0].transport == t,
        preferring(t)[1].transport != t,
        primary_of(preferring(t)) == t,
{
}

/// How idle TCP connections are probed.
#[derive(Clone, Copy, Debug)]
pub struct TcpKeepaliveConfig {
    /// Idle time before the first probe.
    pub time: Duration,
    /// Time between two probes.
    pub interval: Duration,
    /// Unanswered probes before the connection counts as dead.
    pub retries: u32,
}

/// The settings of a runtime.
pub struct RuntimeConfig {
    /// Port of service discovery.
    pub sd_port: u16,
    /// Multicast group of service discovery.
    pub sd_multicast: MulticastAddress,
    /// Unicast address of service discovery.
    pub sd_unicast: UnicastAddress,
    /// The address to advertise in endpoint options; the socket's own where there is none.
    pub advertised_ip: Option<IpAddr>,
    /// One socket for multicast and unicast.
    pub single_socket: bool,
    /// Lifetime of offers, in seconds.
    pub offer_ttl: u32,
    /// Lifetime of find entries, in seconds.
    pub find_ttl: u32,
    /// Lifetime of subscriptions, in seconds.
    pub subscribe_ttl: u32,
    /// Time between two offers, in milliseconds.
    pub cyclic_offer_delay: u64,
    /// Which of the offered endpoints to use.
    pub transport_policy: TransportPolicy,
    /// Magic cookies on TCP.
    pub magic_cookies: bool,
    /// Keepalive of outgoing connections.
    pub tcp_keepalive_client: Option<TcpKeepaliveConfig>,
    /// Keepalive of incoming connections.
    pub tcp_keepalive_server: Option<TcpKeepaliveConfig>,
}

impl RuntimeConfig {
    /// The multicast group at the port of service discovery.
    pub open spec fn multicast_target(self) -> SocketAddr {
        SocketAddr { ip: IpAddr::V4(self.sd_multicast@), port: self.sd_port }
    }

    /// The transport that is preferred.
    pub open spec fn preferred(self) -> Transport {
        primary_of(self.transport_policy@)
    }

    /// The multicast group at the port of service discovery.
    pub fn sd_multicast_addr(&self) -> (r: SocketAddr)
        ensures
            r == self.multicast_target(),
    {
        SocketAddr::v4(self.sd_multicast.get(), self.sd_port)
    }

    /// The unicast address of service discovery.
    pub fn unicast_ip(&self) -> (r: Ipv4Addr)
        ensures
            r == self.sd_unicast@,
            UnicastAddress::allowed(r),
    {
        self.sd_unicast.get()
    }

    /// The transport that is preferred.
    pub fn preferred_transport(&self) -> (r: Transport)
        ensures
            r == self.preferred(),
    {
        self.transport_policy.primary()
    }
}

impl Default for RuntimeConfig {
    /// Discovery on `239.255.0.1:30490` from the loopback address, with the default
    /// lifetimes.
    fn default() -> (r: Self)
        ensures
            r.sd_port == DEFAULT_SD_PORT,
            r.sd_multicast@ == (Ipv4Addr { a: 239, b: 255, c: 0, d: 1 }),
            r.sd_unicast@ == crate::net::localhost(),
            r.advertised_ip is None,
            !r.single_socket,
            r.offer_ttl == DEFAULT_OFFER_TTL,
            r.find_ttl == DEFAULT_FIND_TTL,
            r.subscribe_ttl == DEFAULT_SUBSCRIBE_TTL,
            r.cyclic_offer_delay == DEFAULT_CYCLIC_OFFER_DELAY,
            r.transport_policy@ == udp_then_tcp(),
            !r.magic_cookies,
            r.tcp_keepalive_client is None,
            r.tcp_keepalive_server is None,
    {
        RuntimeConfig {
            sd_port: DEFAULT_SD_PORT,
            sd_multicast: MulticastAddress(Ipv4Addr::new(239, 255, 0, 1)),
            sd_unicast: UnicastAddress(Ipv4Addr::new(127, 0, 0, 1)),
            advertised_ip: None,
            single_socket: false,
            offer_ttl: DEFAULT_OFFER_TTL,
            find_ttl: DEFAULT_FIND_TTL,
            subscribe_ttl: DEFAULT_SUBSCRIBE_TTL,
            cyclic_offer_delay: DEFAULT_CYCLIC_OFFER_DELAY,
            transport_policy: TransportPolicy::prefer_udp(),
            magic_cookies: false,
            tcp_keepalive_client: None,
            tcp_keepalive_server: None,
        }
    }
}

/// Which methods answer errors with an exception message.
#[derive(Debug)]
pub struct MethodConfig {
    exception_methods: HashSet<u16>,
}

impl View for MethodConfig {
    type V = Set<u16>;

    closed spec fn view(&self) -> Set<u16> {
        self.exception_methods@
    }
}

impl MethodConfig {
    /// No method answers errors with an exception message.
    pub fn new() -> (r: Self)
        ensures
            r@ == Set::<u16>::empty(),
    {
        MethodConfig { exception_methods: HashSet::new() }
    }

    /// The method answers errors with an exception message.
    pub fn use_exception_for(self, method_id: u16) -> (r: Self)
        ensures
            r@ == self@.insert(method_id),
    {
        let mut exception_methods = self.exception_methods;
        exception_methods.insert(method_id);
        MethodConfig { exception_methods }
    }

    /// Whether the method answers errors with an exception message.
    pub fn uses_exception(&self, method_id: u16) -> (r: bool)
        ensures
            r == self@.contains(method_id),
    {
        self.exception_methods.contains(&method_id)
    }
}

impl Default for MethodConfig {
    fn default() -> (r: Self)
        ensures
            r@ == Set::<u16>::empty(),
    {
        MethodConfig::new()
    }
}

/// On which transports and ports a service is offered; port 0 is the default port.
#[derive(Debug)]
pub struct OfferConfig {
    /// TCP port, if offered over TCP.
    pub tcp_port: Option<u16>,
    /// UDP port, if offered over UDP.
    pub udp_port: Option<u16>,
    /// Settings of single methods.
    pub method_config: MethodConfig,
}

impl OfferConfig {
    /// No transport.
    pub fn new() -> (r: Self)
        ensures
            r.tcp_port is None,
            r.udp_port is None,
            r.method_config@ == Set::<u16>::empty(),
    {
        OfferConfig { tcp_port: None, udp_port: None, method_config: MethodConfig::new() }
    }

    /// Also over TCP, on the default port.
    pub fn tcp(self) -> (r: Self)
        ensures
            r == (OfferConfig { tcp_port: Some(0), ..self }),
    {
        OfferConfig { tcp_port: Some(0), ..self }
    }

    /// Also over TCP, on this port.
    pub fn tcp_port(self, port: u16) -> (r: Self)
        ensures
            r == (OfferConfig { tcp_port: Some(port), ..self }),
    {
        OfferConfig { tcp_port: Some(port), ..self }
    }

    /// Also over UDP, on the default port.
    pub fn udp(self) -> (r: Self)
        ensures
            r == (OfferConfig { udp_port: Some(0), ..self }),
    {
        OfferConfig { udp_port: Some(0), ..self }
    }

    /// Also over UDP, on this port.
    pub fn udp_port(self, port: u16) -> (r: Self)
        ensures
            r == (OfferConfig { udp_port: Some(port), ..self }),
    {
        OfferConfig { udp_port: Some(port), ..self }
    }

    /// With these settings of single methods.
    pub fn method_config(self, config: MethodConfig) -> (r: Self)
        ensures
            r == (OfferConfig { method_config: config, ..self }),
    {
        OfferConfig { method_config: config, ..self }
    }

    /// Whether a transport is set.
    pub fn has_transport(&self) -> (r: bool)
        ensures
            r == (self.tcp_port is Some || self.udp_port is Some),
    {
        self.tcp_port.is_some() || self.udp_port.is_some()
    }

    /// Whether TCP is set.
    pub fn has_tcp(&self) -> (r: bool)
        ensures
            r == (self.tcp_port is Some),
    {
        self.tcp_port.is_some()
    }

    /// Whether UDP is set.
    pub fn has_udp(&self) -> (r: bool)
        ensures
            r == (self.udp_port is Some),
    {
        self.udp_port.is_some()
    }

    /// The settings with a transport: where none is set, the preferred one on its default
    /// port.
    pub open spec fn with_fallback(self, preferred: Transport) -> OfferConfig {
        if self.tcp_port is Some || self.udp_port is Some {
            self
        } else {
            match preferred {
                Transport::Tcp => OfferConfig { tcp_port: Some(0), ..self },
                Transport::Udp => OfferConfig { udp_port: Some(0), ..self },
            }
        }
    }

    /// The settings with a transport: where none is set, the preferred one on its default
    /// port.
    pub fn or_preferred(self, preferred: Transport) -> (r: Self)
        ensures
            r == self.with_fallback(preferred),
            r.tcp_port is Some || r.udp_port is Some,
    {
        if self.has_transport() {
            self
        } else {
            match preferred {
                Transport::Tcp => self.tcp(),
                Transport::Udp => self.udp(),
            }
        }
    }
}

impl Default for OfferConfig {
    fn default() -> (r: Self)
        ensures
            r.tcp_port is None,
            r.udp_port is None,
            r.method_config@ == Set::<u16>::empty(),
    {
        OfferConfig::new()
    }
}

} // verus!
