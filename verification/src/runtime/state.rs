//! The state of the runtime.

use crate::config::{MethodConfig, RuntimeConfig, Transport};
use crate::discovery::{SdMessage, SdMessageView};
use crate::ids::{InstanceId, ServiceId};
use crate::message::ChannelId;
use crate::net::{IpAddr, SocketAddr};
use crate::runtime::action::{push, views, Action, ActionView, RpcTransportSender};
use crate::table::{distinct, Key, Table};
use std::collections::HashSet;
use vstd::prelude::*;

verus! {

/// Nanoseconds in a millisecond.
pub const MILLISECOND: u128 = 1_000_000;

/// Nanoseconds in a second.
pub const SECOND: u128 = 1_000_000_000;

/// The latest time at which the periodic tasks can be due.
pub const LATEST_CYCLE: u128 = 0x1_0000_0000_0000_0000_0000_0000;

/// How long discovery messages to one host are held back so that they can be merged.
pub const UNICAST_SD_DELAY: u128 = 100_000_000;

/// A service: its identifier, instance and major version.
#[derive(Clone, Copy, PartialEq, Eq, Structural, Debug, Hash)]
pub struct ServiceKey {
    /// The service.
    pub service_id: u16,
    /// The instance, `0xFFFF` for any.
    pub instance_id: u16,
    /// The major version, `0xFF` for any.
    pub major_version: u8,
}

impl ServiceKey {
    /// The key of a service instance.
    pub open spec fn of(service_id: ServiceId, instance_id: InstanceId, major_version: u8) -> Self {
        ServiceKey { service_id: service_id@, instance_id: instance_id.raw(), major_version }
    }

    /// The same service, where the wildcards of either side stand for anything.
    pub open spec fn matching(self, other: Self) -> bool {
        &&& self.service_id == other.service_id
        &&& self.instance_id == 0xFFFF || other.instance_id == 0xFFFF || self.instance_id
            == other.instance_id
        &&& self.major_version == 0xFF || other.major_version == 0xFF || self.major_version
            == other.major_version
    }

    /// The key of a service instance.
    pub fn new(service_id: ServiceId, instance_id: InstanceId, major_version: u8) -> (r: Self)
        ensures
            r == Self::of(service_id, instance_id, major_version),
    {
        ServiceKey {
            service_id: service_id.value(),
            instance_id: instance_id.value(),
            major_version,
        }
    }

    /// Whether both are the same service; the wildcards of either side stand for anything.
    pub fn matches(self, other: Self) -> (r: bool)
        ensures
            r == self.matching(other),
    {
        self.service_id == other.service_id && (self.instance_id == 0xFFFF || self.instance_id
            == other.instance_id || other.instance_id == 0xFFFF) && (self.major_version == 0xFF
            || self.major_version == other.major_version || other.major_version == 0xFF)
    }
}

impl Key for ServiceKey {
    fn same(&self, other: &Self) -> (r: bool) {
        *self == *other
    }
}

/// Matching is reflexive and symmetric, and without wildcards it is equality.
pub proof fn matching_laws(a: ServiceKey, b: ServiceKey)
    ensures
        a.matching(a),
        a.matching(b) == b.matching(a),
        a.instance_id != 0xFFFF && b.instance_id != 0xFFFF && a.major_version != 0xFF
            && b.major_version != 0xFF ==> (a.matching(b) <==> a == b),
{
}

/// An eventgroup of an offered service.
#[derive(Clone, Copy, PartialEq, Eq, Structural, Debug, Hash)]
pub struct SubscriberKey {
    /// The service.
    pub service_id: u16,
    /// The instance.
    pub instance_id: u16,
    /// The major version.
    pub major_version: u8,
    /// The eventgroup.
    pub eventgroup_id: u16,
}

impl Key for SubscriberKey {
    fn same(&self, other: &Self) -> (r: bool) {
        *self == *other
    }
}

/// Where a client receives the events of an eventgroup.
#[derive(Clone, Copy, PartialEq, Eq, Structural, Debug, Hash)]
pub struct SubscriberSlot {
    /// The eventgroup.
    pub group: SubscriberKey,
    /// Where events go.
    pub endpoint: SocketAddr,
}

impl Key for SubscriberSlot {
    fn same(&self, other: &Self) -> (r: bool) {
        *self == *other
    }
}

/// A client's subscription to an eventgroup.
#[derive(Clone, Copy, PartialEq, Eq, Structural, Debug)]
pub struct ServerSubscription {
    /// How events go to the client.
    pub transport: Transport,
    /// When the subscription ends; `None` where it never does.
    pub expires_at: Option<u128>,
}

/// A call that awaits its response.
#[derive(Clone, Copy, PartialEq, Eq, Structural, Debug, Hash)]
pub struct CallKey {
    /// The client.
    pub client_id: u16,
    /// The session.
    pub session_id: u16,
}

impl Key for CallKey {
    fn same(&self, other: &Self) -> (r: bool) {
        *self == *other
    }
}

/// The last session that a peer used on a channel.
#[derive(Clone, Copy, PartialEq, Eq, Structural, Debug)]
pub struct PeerChannelSession {
    /// The last session, if any was seen.
    pub last_session_id: Option<u16>,
    /// The reboot flag of that session.
    pub last_reboot_flag: bool,
}

impl PeerChannelSession {
    /// The peer has rebooted: its reboot flag went up, or it stayed up while the session
    /// went back. The first message from a peer says nothing.
    pub open spec fn reboots(self, session_id: u16, reboot_flag: bool) -> bool {
        match self.last_session_id {
            None => false,
            Some(last) => reboot_flag && (!self.last_reboot_flag || session_id < last),
        }
    }

    /// Whether a message shows that the peer has rebooted; remembers the message.
    pub fn check_and_update(&mut self, session_id: u16, reboot_flag: bool) -> (r: bool)
        ensures
            r == old(self).reboots(session_id, reboot_flag),
            *final(self) == (PeerChannelSession {
                last_session_id: Some(session_id),
                last_reboot_flag: reboot_flag,
            }),
    {
        let reboot_detected: bool = match (self.last_session_id, self.last_reboot_flag) {
            (None, _) => false,
            (Some(_), false) => reboot_flag,
            (Some(last), true) => reboot_flag && session_id < last,
        };
        self.last_session_id = Some(session_id);
        self.last_reboot_flag = reboot_flag;
        reboot_detected
    }
}

impl Default for PeerChannelSession {
    fn default() -> (r: Self)
        ensures
            r == (PeerChannelSession { last_session_id: None, last_reboot_flag: false }),
    {
        PeerChannelSession { last_session_id: None, last_reboot_flag: false }
    }
}

/// A peer that counts its sessions up, and lowers its reboot flag for good when they wrap,
/// is never taken for rebooted, nor is one that repeats a session; one that starts over with
/// the flag up is, once it has got beyond its first session.
pub proof fn reboot_detection(last: u16, last_flag: bool, next: u16, next_flag: bool)
    ensures
        ({
            let seen = PeerChannelSession {
                last_session_id: Some(last),
                last_reboot_flag: last_flag,
            };
            &&& !next_flag ==> !seen.reboots(next, next_flag)
            &&& last_flag && last <= next ==> !seen.reboots(next, next_flag)
            &&& next_flag && !last_flag ==> seen.reboots(next, next_flag)
            &&& next_flag && next == 1 && last > 1 ==> seen.reboots(next, next_flag)
        }),
{
}

/// The sessions of a peer on both channels.
#[derive(Clone, Copy, PartialEq, Eq, Structural, Debug)]
pub struct PeerSessionState {
    /// Multicast messages.
    pub multicast: PeerChannelSession,
    /// Unicast messages.
    pub unicast: PeerChannelSession,
}

/// The state of a peer that was never seen.
pub open spec fn unseen_peer() -> PeerSessionState {
    PeerSessionState {
        multicast: PeerChannelSession { last_session_id: None, last_reboot_flag: false },
        unicast: PeerChannelSession { last_session_id: None, last_reboot_flag: false },
    }
}

impl Default for PeerSessionState {
    fn default() -> (r: Self)
        ensures
            r == unseen_peer(),
    {
        PeerSessionState {
            multicast: PeerChannelSession::default(),
            unicast: PeerChannelSession::default(),
        }
    }
}

/// The channel of a discovery message; each has its own session counter.
#[derive(Clone, Copy, PartialEq, Eq, Structural, Debug)]
pub enum SdChannel {
    /// Multicast.
    Multicast,
    /// Unicast.
    Unicast,
}

/// A service that is offered.
pub struct OfferedService {
    /// The major version.
    pub major_version: u8,
    /// The minor version.
    pub minor_version: u32,
    /// Where requests go.
    pub requests_tx: ChannelId,
    /// When the service was last offered.
    pub last_offer: u64,
    /// The UDP endpoint.
    pub udp_endpoint: Option<SocketAddr>,
    /// The UDP socket.
    pub udp_transport: Option<RpcTransportSender>,
    /// The TCP endpoint.
    pub tcp_endpoint: Option<SocketAddr>,
    /// The TCP server.
    pub tcp_transport: Option<RpcTransportSender>,
    /// Settings of single methods.
    pub method_config: MethodConfig,
    /// Whether the service is announced.
    pub is_announcing: bool,
}

impl OfferedService {
    /// The sending end for a transport.
    pub open spec fn sender(self, transport: Transport) -> Option<RpcTransportSender> {
        match transport {
            Transport::Tcp => self.tcp_transport,
            Transport::Udp => self.udp_transport,
        }
    }

    /// The sending end for a transport.
    pub fn transport_sender(&self, transport: Transport) -> (r: Option<RpcTransportSender>)
        ensures
            r == self.sender(transport),
    {
        match transport {
            Transport::Tcp => self.tcp_transport,
            Transport::Udp => self.udp_transport,
        }
    }
}

/// A service that another host offers.
#[derive(Clone, Copy, PartialEq, Eq, Structural, Debug)]
pub struct DiscoveredService {
    /// The UDP endpoint.
    pub udp_endpoint: Option<SocketAddr>,
    /// The TCP endpoint.
    pub tcp_endpoint: Option<SocketAddr>,
    /// The host's discovery endpoint.
    pub sd_endpoint: SocketAddr,
    /// The minor version.
    pub minor_version: u32,
    /// The lifetime of the offer, in seconds.
    pub ttl: u32,
    /// When the offer ends.
    pub ttl_expires: u128,
}

/// The endpoint to use: that of the preferred transport, or else the other one.
pub open spec fn preferred_endpoint(
    udp: Option<SocketAddr>,
    tcp: Option<SocketAddr>,
    prefer_tcp: bool,
) -> Option<(SocketAddr, Transport)> {
    match (udp, tcp) {
        (Some(u), Some(t)) => if prefer_tcp {
            Some((t, Transport::Tcp))
        } else {
            Some((u, Transport::Udp))
        },
        (Some(u), None) => Some((u, Transport::Udp)),
        (None, Some(t)) => Some((t, Transport::Tcp)),
        (None, None) => None,
    }
}

/// The endpoint to use: that of the preferred transport, or else the other one.
pub fn choose_endpoint(
    udp: Option<SocketAddr>,
    tcp: Option<SocketAddr>,
    prefer_tcp: bool,
) -> (r: Option<(SocketAddr, Transport)>)
    ensures
        r == preferred_endpoint(udp, tcp, prefer_tcp),
{
    match (udp, tcp) {
        (Some(u), Some(t)) => if prefer_tcp {
            Some((t, Transport::Tcp))
        } else {
            Some((u, Transport::Udp))
        },
        (Some(u), None) => Some((u, Transport::Udp)),
        (None, Some(t)) => Some((t, Transport::Tcp)),
        (None, None) => None,
    }
}

impl DiscoveredService {
    /// The endpoint and transport to use.
    pub open spec fn endpoint(self, prefer_tcp: bool) -> Option<(SocketAddr, Transport)> {
        preferred_endpoint(self.udp_endpoint, self.tcp_endpoint, prefer_tcp)
    }

    /// Whether the service runs at an address.
    pub open spec fn runs_at(self, addr: SocketAddr) -> bool {
        self.udp_endpoint == Some(addr) || self.tcp_endpoint == Some(addr)
    }

    /// Whether the service runs on a host.
    pub open spec fn runs_on(self, host: IpAddr) -> bool {
        ||| self.udp_endpoint matches Some(ep) && ep.ip == host
        ||| self.tcp_endpoint matches Some(ep) && ep.ip == host
    }

    /// The endpoint and transport to use.
    pub fn method_endpoint(&self, prefer_tcp: bool) -> (r: Option<(SocketAddr, Transport)>)
        ensures
            r == self.endpoint(prefer_tcp),
    {
        choose_endpoint(self.udp_endpoint, self.tcp_endpoint, prefer_tcp)
    }

    /// Whether the service runs at an address.
    pub fn is_at(&self, addr: SocketAddr) -> (r: bool)
        ensures
            r == self.runs_at(addr),
    {
        (match self.udp_endpoint {
            Some(ep) => ep == addr,
            None => false,
        }) || (match self.tcp_endpoint {
            Some(ep) => ep == addr,
            None => false,
        })
    }

    /// Whether the service runs on a host.
    pub fn is_on(&self, host: IpAddr) -> (r: bool)
        ensures
            r == self.runs_on(host),
    {
        (match self.udp_endpoint {
            Some(ep) => ep.ip == host,
            None => false,
        }) || (match self.tcp_endpoint {
            Some(ep) => ep.ip == host,
            None => false,
        })
    }

    /// Whether the offer has not ended yet.
    pub fn is_alive(&self, now: u64) -> (r: bool)
        ensures
            r == (now < self.ttl_expires),
    {
        (now as u128) < self.ttl_expires
    }
}

/// A search that is under way.
#[derive(Clone, Copy, PartialEq, Eq, Structural, Debug)]
pub struct FindRequest {
    /// Where the answer goes.
    pub notify: ChannelId,
    /// How often the search is still repeated.
    pub repetitions_left: u32,
    /// When the search was last sent.
    pub last_find: u64,
}

/// A subscription to one eventgroup.
#[derive(Clone, Copy, PartialEq, Eq, Structural, Debug)]
pub struct ClientSubscription {
    /// The service.
    pub service: ServiceKey,
    /// The subscription; several eventgroups may share it.
    pub subscription_id: u64,
    /// The eventgroup.
    pub eventgroup_id: u16,
    /// Where events go.
    pub events_tx: ChannelId,
    /// Where events arrive.
    pub local_endpoint: SocketAddr,
    /// Whether a socket of its own receives the events.
    pub has_dedicated_socket: bool,
    /// The TCP connection on which events arrive.
    pub tcp_conn_key: u64,
    /// The transport that was asked for, where one was.
    pub chosen: Option<Transport>,
}

/// A call that awaits its response.
#[derive(Clone, Copy, PartialEq, Eq, Structural, Debug)]
pub struct PendingCall {
    /// Where the response goes.
    pub response: ChannelId,
}

/// An eventgroup whose subscription awaits its answer.
#[derive(Clone, Copy, PartialEq, Eq, Structural, Debug, Hash)]
pub struct PendingSubscriptionKey {
    /// The service.
    pub service_id: u16,
    /// The instance.
    pub instance_id: u16,
    /// The major version.
    pub major_version: u8,
    /// The eventgroup.
    pub eventgroup_id: u16,
}

/// A subscription that awaits its answer.
#[derive(Clone, Copy, PartialEq, Eq, Structural, Debug)]
pub struct PendingSubscription {
    /// The subscription.
    pub subscription_id: u64,
    /// Where the outcome goes, where this eventgroup alone decides.
    pub response: Option<ChannelId>,
}

/// A subscription to several eventgroups.
#[derive(Clone, Copy, PartialEq, Eq, Structural, Debug, Hash)]
pub struct MultiEventgroupSubscriptionKey {
    /// The service.
    pub service_id: u16,
    /// The instance.
    pub instance_id: u16,
    /// The major version.
    pub major_version: u8,
    /// The subscription.
    pub subscription_id: u64,
}

impl Key for MultiEventgroupSubscriptionKey {
    fn same(&self, other: &Self) -> (r: bool) {
        *self == *other
    }
}

/// A subscription to several eventgroups that awaits all their answers.
pub struct MultiEventgroupSubscription {
    /// The eventgroups.
    pub eventgroup_ids: Vec<u16>,
    /// The eventgroups that were acknowledged.
    pub acked_eventgroups: HashSet<u16>,
    /// Where the outcome goes.
    pub response: Option<ChannelId>,
}

/// What a [`MultiEventgroupSubscription`] says.
pub struct MultiView {
    /// The eventgroups.
    pub eventgroup_ids: Seq<u16>,
    /// The eventgroups that were acknowledged.
    pub acked: Set<u16>,
    /// Where the outcome goes.
    pub response: Option<ChannelId>,
}

impl View for MultiEventgroupSubscription {
    type V = MultiView;

    open spec fn view(&self) -> MultiView {
        MultiView {
            eventgroup_ids: self.eventgroup_ids@,
            acked: self.acked_eventgroups@,
            response: self.response,
        }
    }
}

/// A service instance that receives events on a local port.
#[derive(Clone, Copy, PartialEq, Eq, Structural, Debug)]
pub struct EndpointUse {
    /// The local port.
    pub port: u16,
    /// The service.
    pub service_id: u16,
    /// The instance.
    pub instance_id: u16,
}

/// The state of the runtime.
pub struct RuntimeState {
    /// The discovery endpoint.
    pub local_endpoint: SocketAddr,
    /// The endpoint from which requests are sent.
    pub client_rpc_endpoint: SocketAddr,
    /// The sending end of that endpoint's socket.
    pub client_rpc_tx: ChannelId,
    /// The services that are offered.
    pub offered: Table<ServiceKey, OfferedService>,
    /// The events that were registered for them.
    pub registered_events: Vec<(ServiceKey, u16)>,
    /// The searches that are under way.
    pub find_requests: Table<ServiceKey, FindRequest>,
    /// The services that other hosts offer.
    pub discovered: Table<ServiceKey, DiscoveredService>,
    /// The subscriptions to other hosts' eventgroups.
    pub subscriptions: Vec<ClientSubscription>,
    /// The subscriptions of other hosts.
    pub server_subscribers: Table<SubscriberSlot, ServerSubscription>,
    /// Listeners without subscription.
    pub static_listeners: Table<SubscriberKey, ChannelId>,
    /// The calls that await their responses.
    pub pending_calls: Table<CallKey, PendingCall>,
    /// The subscriptions that await their answers.
    pub pending_subscriptions: Vec<(PendingSubscriptionKey, PendingSubscription)>,
    /// The subscriptions to several eventgroups that await their answers.
    pub multi_eventgroup_subscriptions: Table<
        MultiEventgroupSubscriptionKey,
        MultiEventgroupSubscription,
    >,
    /// The client identifier of requests.
    pub client_id: u16,
    pub(crate) multicast_session_id: u16,
    pub(crate) unicast_session_id: u16,
    pub(crate) multicast_has_wrapped_once: bool,
    pub(crate) unicast_has_wrapped_once: bool,
    /// The services whose first offer is held back.
    pub pending_initial_offers: Vec<ServiceKey>,
    /// Until when it is held back.
    pub pending_offers_deadline: Option<u128>,
    /// When the periodic tasks were last due, or are due first.
    pub last_periodic_cycle: Option<u128>,
    pub(crate) pending_unicast_sd: Vec<Action>,
    pub(crate) pending_unicast_sd_deadline: Option<u128>,
    /// The settings.
    pub config: RuntimeConfig,
    /// The sessions of other hosts.
    pub peer_sessions: Table<IpAddr, PeerSessionState>,
    /// Where observations go.
    pub sd_monitors: Vec<ChannelId>,
    pub(crate) next_subscription_id: u64,
    /// Which service instances receive events on which local port.
    pub subscription_endpoint_usage: Vec<EndpointUse>,
    pub(crate) payload_session_id: u16,
}

/// What a [`RuntimeState`] says.
#[verifier::ext_equal]
pub struct StateView {
    /// The discovery endpoint.
    pub local_endpoint: SocketAddr,
    /// The endpoint from which requests are sent.
    pub client_rpc_endpoint: SocketAddr,
    /// The sending end of that endpoint's socket.
    pub client_rpc_tx: ChannelId,
    /// The services that are offered.
    pub offered: Seq<(ServiceKey, OfferedService)>,
    /// The events that were registered for them.
    pub registered_events: Seq<(ServiceKey, u16)>,
    /// The searches that are under way.
    pub find_requests: Seq<(ServiceKey, FindRequest)>,
    /// The services that other hosts offer.
    pub discovered: Seq<(ServiceKey, DiscoveredService)>,
    /// The subscriptions to other hosts' eventgroups.
    pub subscriptions: Seq<ClientSubscription>,
    /// The subscriptions of other hosts.
    pub server_subscribers: Seq<(SubscriberSlot, ServerSubscription)>,
    /// Listeners without subscription.
    pub static_listeners: Seq<(SubscriberKey, ChannelId)>,
    /// The calls that await their responses.
    pub pending_calls: Seq<(CallKey, PendingCall)>,
    /// The subscriptions that await their answers.
    pub pending_subscriptions: Seq<(PendingSubscriptionKey, PendingSubscription)>,
    /// The subscriptions to several eventgroups that await their answers.
    pub multi: Seq<(MultiEventgroupSubscriptionKey, MultiView)>,
    /// The client identifier of requests.
    pub client_id: u16,
    /// The next multicast session.
    pub multicast_session_id: u16,
    /// The next unicast session.
    pub unicast_session_id: u16,
    /// The multicast sessions have wrapped.
    pub multicast_has_wrapped_once: bool,
    /// The unicast sessions have wrapped.
    pub unicast_has_wrapped_once: bool,
    /// The services whose first offer is held back.
    pub pending_initial_offers: Seq<ServiceKey>,
    /// Until when it is held back.
    pub pending_offers_deadline: Option<u128>,
    /// When the periodic tasks were last due, or are due first.
    pub last_periodic_cycle: Option<u128>,
    /// The unicast discovery messages that are held back.
    pub pending_unicast_sd: Seq<ActionView>,
    /// Until when they are held back.
    pub pending_unicast_sd_deadline: Option<u128>,
    /// The settings.
    pub config: RuntimeConfig,
    /// The sessions of other hosts.
    pub peer_sessions: Seq<(IpAddr, PeerSessionState)>,
    /// Where observations go.
    pub sd_monitors: Seq<ChannelId>,
    /// The next subscription.
    pub next_subscription_id: u64,
    /// Which service instances receive events on which local port.
    pub subscription_endpoint_usage: Seq<EndpointUse>,
    /// The next session of a request.
    pub payload_session_id: u16,
}

/// What a table of subscriptions to several eventgroups says.
pub open spec fn multi_views(
    s: Seq<(MultiEventgroupSubscriptionKey, MultiEventgroupSubscription)>,
) -> Seq<(MultiEventgroupSubscriptionKey, MultiView)> {
    crate::table::map_table(s, |v: MultiEventgroupSubscription| v@)
}

impl View for RuntimeState {
    type V = StateView;

    open(crate) spec fn view(&self) -> StateView {
        StateView {
            local_endpoint: self.local_endpoint,
            client_rpc_endpoint: self.client_rpc_endpoint,
            client_rpc_tx: self.client_rpc_tx,
            offered: self.offered@,
            registered_events: self.registered_events@,
            find_requests: self.find_requests@,
            discovered: self.discovered@,
            subscriptions: self.subscriptions@,
            server_subscribers: self.server_subscribers@,
            static_listeners: self.static_listeners@,
            pending_calls: self.pending_calls@,
            pending_subscriptions: self.pending_subscriptions@,
            multi: multi_views(self.multi_eventgroup_subscriptions@),
            client_id: self.client_id,
            multicast_session_id: self.multicast_session_id,
            unicast_session_id: self.unicast_session_id,
            multicast_has_wrapped_once: self.multicast_has_wrapped_once,
            unicast_has_wrapped_once: self.unicast_has_wrapped_once,
            pending_initial_offers: self.pending_initial_offers@,
            pending_offers_deadline: self.pending_offers_deadline,
            last_periodic_cycle: self.last_periodic_cycle,
            pending_unicast_sd: views(self.pending_unicast_sd@),
            pending_unicast_sd_deadline: self.pending_unicast_sd_deadline,
            config: self.config,
            peer_sessions: self.peer_sessions@,
            sd_monitors: self.sd_monitors@,
            next_subscription_id: self.next_subscription_id,
            subscription_endpoint_usage: self.subscription_endpoint_usage@,
            payload_session_id: self.payload_session_id,
        }
    }
}

/// The session that follows `id`: 0 is never used.
pub open spec fn next_session(id: u16) -> u16 {
    if id == 0xFFFF {
        1
    } else {
        (id + 1) as u16
    }
}

/// The session of call number `n`, counting from 0.
pub open spec fn session_of_call(n: nat) -> u16
    decreases n,
{
    if n == 0 {
        1
    } else {
        next_session(session_of_call((n - 1) as nat))
    }
}

/// The sessions run from 1 to 0xFFFF and start over: call number `n` uses session
/// `1 + n % 0xFFFF`, which is never 0.
pub proof fn sessions_cycle(n: nat)
    ensures
        session_of_call(n) == 1 + n % 0xFFFF,
        session_of_call(n) != 0,
    decreases n,
{
    if n > 0 {
        sessions_cycle((n - 1) as nat);
    }
}

/// The sessions have wrapped by the time call number `n` is made.
pub open spec fn wrapped_before(n: nat) -> bool
    decreases n,
{
    if n == 0 {
        false
    } else {
        wrapped_before((n - 1) as nat) || session_of_call((n - 1) as nat) == 0xFFFF
    }
}

/// The sessions wrap with the call that uses 0xFFFF, and stay wrapped for good.
pub proof fn sessions_wrap_once(n: nat)
    ensures
        wrapped_before(n) <==> n >= 0xFFFF,
    decreases n,
{
    if n > 0 {
        sessions_wrap_once((n - 1) as nat);
        sessions_cycle((n - 1) as nat);
    }
}

/// A port that other service instances use but not this one, behind position `i`.
pub open spec fn reusable_from(
    usage: Seq<EndpointUse>,
    rpc_port: u16,
    service_id: u16,
    instance_id: u16,
    i: int,
) -> Option<u16>
    decreases usage.len() - i,
{
    if i < 0 || i >= usage.len() {
        None
    } else if usage[i].port != rpc_port && !usage.contains(
        EndpointUse { port: usage[i].port, service_id, instance_id },
    ) {
        Some(usage[i].port)
    } else {
        reusable_from(usage, rpc_port, service_id, instance_id, i + 1)
    }
}

/// Wants the other uses of a port.
pub open spec fn other_use(u: EndpointUse) -> spec_fn(EndpointUse) -> bool {
    |x: EndpointUse| x != u
}

impl StateView {
    /// The keys of every table are distinct, no set has an element twice, no session
    /// counter is 0, only discovery messages are held back, and times can be added to that
    /// of the periodic tasks.
    pub open spec fn wf(self) -> bool {
        &&& distinct(self.offered)
        &&& distinct(self.find_requests)
        &&& distinct(self.discovered)
        &&& distinct(self.server_subscribers)
        &&& distinct(self.static_listeners)
        &&& distinct(self.pending_calls)
        &&& distinct(self.multi)
        &&& distinct(self.peer_sessions)
        &&& self.registered_events.no_duplicates()
        &&& self.subscription_endpoint_usage.no_duplicates()
        &&& self.multicast_session_id != 0
        &&& self.unicast_session_id != 0
        &&& self.payload_session_id != 0
        &&& self.last_periodic_cycle matches Some(cycle) ==> cycle <= LATEST_CYCLE
        &&& forall|i: int|
            0 <= i < self.pending_unicast_sd.len() ==> (#[trigger] self.pending_unicast_sd[i]) is SendSd
    }

    /// The flags of a discovery message on a channel: the reboot flag until its sessions
    /// have wrapped.
    pub open spec fn flags(self, unicast: bool) -> u8 {
        if unicast {
            if self.unicast_has_wrapped_once {
                0x40
            } else {
                0xC0
            }
        } else {
            if self.multicast_has_wrapped_once {
                0x00
            } else {
                0x80
            }
        }
    }

    /// A discovery message is held back, for 100 ms from the first on.
    pub open spec fn queued(self, message: SdMessageView, target: SocketAddr, now: u64) -> Self {
        StateView {
            pending_unicast_sd: self.pending_unicast_sd.push(
                ActionView::SendSd { message, target },
            ),
            pending_unicast_sd_deadline: match self.pending_unicast_sd_deadline {
                Some(deadline) => Some(deadline),
                None => Some((now + UNICAST_SD_DELAY) as u128),
            },
            ..self
        }
    }

    /// A multicast session is used.
    pub open spec fn multicast_session_used(self) -> Self {
        StateView {
            multicast_session_id: next_session(self.multicast_session_id),
            multicast_has_wrapped_once: self.multicast_has_wrapped_once
                || self.multicast_session_id == 0xFFFF,
            ..self
        }
    }

    /// A unicast session is used.
    pub open spec fn unicast_session_used(self) -> Self {
        StateView {
            unicast_session_id: next_session(self.unicast_session_id),
            unicast_has_wrapped_once: self.unicast_has_wrapped_once || self.unicast_session_id
                == 0xFFFF,
            ..self
        }
    }

    /// The port on which a service instance can receive further events: the request port
    /// where it does not use that yet, or else a port that only others use.
    pub open spec fn reusable_port(self, service_id: u16, instance_id: u16) -> Option<u16> {
        let rpc_port = self.client_rpc_endpoint.port;
        if !self.subscription_endpoint_usage.contains(
            EndpointUse { port: rpc_port, service_id, instance_id },
        ) {
            Some(rpc_port)
        } else {
            reusable_from(
                self.subscription_endpoint_usage,
                rpc_port,
                service_id,
                instance_id,
                0,
            )
        }
    }

    /// A service instance receives events on a port.
    pub open spec fn port_registered(self, port: u16, service_id: u16, instance_id: u16) -> Self {
        let u = EndpointUse { port, service_id, instance_id };
        StateView {
            subscription_endpoint_usage: if self.subscription_endpoint_usage.contains(u) {
                self.subscription_endpoint_usage
            } else {
                self.subscription_endpoint_usage.push(u)
            },
            ..self
        }
    }

    /// A service instance no longer receives events on a port.
    pub open spec fn port_unregistered(self, port: u16, service_id: u16, instance_id: u16) -> Self {
        let u = EndpointUse { port, service_id, instance_id };
        StateView {
            subscription_endpoint_usage: self.subscription_endpoint_usage.filter(other_use(u)),
            ..self
        }
    }

    /// The state of a runtime that has just started.
    pub open spec fn initial(
        local_endpoint: SocketAddr,
        client_rpc_endpoint: SocketAddr,
        client_rpc_tx: ChannelId,
        config: RuntimeConfig,
    ) -> Self {
        StateView {
            local_endpoint,
            client_rpc_endpoint,
            client_rpc_tx,
            offered: Seq::empty(),
            registered_events: Seq::empty(),
            find_requests: Seq::empty(),
            discovered: Seq::empty(),
            subscriptions: Seq::empty(),
            server_subscribers: Seq::empty(),
            static_listeners: Seq::empty(),
            pending_calls: Seq::empty(),
            pending_subscriptions: Seq::empty(),
            multi: Seq::empty(),
            client_id: (local_endpoint.port % 0xFFFE + 1) as u16,
            multicast_session_id: 1,
            unicast_session_id: 1,
            multicast_has_wrapped_once: false,
            unicast_has_wrapped_once: false,
            pending_initial_offers: Seq::empty(),
            pending_offers_deadline: None,
            last_periodic_cycle: None,
            pending_unicast_sd: Seq::empty(),
            pending_unicast_sd_deadline: None,
            config,
            peer_sessions: Seq::empty(),
            sd_monitors: Seq::empty(),
            next_subscription_id: 1,
            subscription_endpoint_usage: Seq::empty(),
            payload_session_id: 1,
        }
    }
}

impl RuntimeState {
    /// The state of a runtime that has just started.
    pub fn new(
        local_endpoint: SocketAddr,
        client_rpc_endpoint: SocketAddr,
        client_rpc_tx: ChannelId,
        config: RuntimeConfig,
    ) -> (r: Self)
        ensures
            r@ == StateView::initial(local_endpoint, client_rpc_endpoint, client_rpc_tx, config),
            r@.wf(),
    {
        let r = RuntimeState {
            local_endpoint,
            client_rpc_endpoint,
            client_rpc_tx,
            offered: Table::new(),
            registered_events: Vec::new(),
            find_requests: Table::new(),
            discovered: Table::new(),
            subscriptions: Vec::new(),
            server_subscribers: Table::new(),
            static_listeners: Table::new(),
            pending_calls: Table::new(),
            pending_subscriptions: Vec::new(),
            multi_eventgroup_subscriptions: Table::new(),
            client_id: local_endpoint.port % 0xFFFE + 1,
            multicast_session_id: 1,
            unicast_session_id: 1,
            multicast_has_wrapped_once: false,
            unicast_has_wrapped_once: false,
            pending_initial_offers: Vec::new(),
            pending_offers_deadline: None,
            last_periodic_cycle: None,
            pending_unicast_sd: Vec::new(),
            pending_unicast_sd_deadline: None,
            config,
            peer_sessions: Table::new(),
            sd_monitors: Vec::new(),
            next_subscription_id: 1,
            subscription_endpoint_usage: Vec::new(),
            payload_session_id: 1,
        };
        assert(r@ =~= StateView::initial(
            local_endpoint,
            client_rpc_endpoint,
            client_rpc_tx,
            config,
        ));
        r
    }

    /// Holds a discovery message back, so that messages to one host can be merged.
    pub fn queue_unicast_sd(&mut self, message: SdMessage, target: SocketAddr, now: u64)
        ensures
            final(self)@ == old(self)@.queued(message@, target, now),
            old(self)@.wf() ==> final(self)@.wf(),
    {
        push(&mut self.pending_unicast_sd, Action::SendSd { message, target });
        if self.pending_unicast_sd_deadline.is_none() {
            self.pending_unicast_sd_deadline = Some(now as u128 + UNICAST_SD_DELAY);
        }
        assert(self@ =~= old(self)@.queued(message@, target, now));
    }

    /// Until when the discovery messages are held back.
    pub fn unicast_sd_deadline(&self) -> (r: Option<u128>)
        ensures
            r == self@.pending_unicast_sd_deadline,
    {
        self.pending_unicast_sd_deadline
    }

    /// The discovery messages that were held back, one per target.
    pub fn flush_pending_unicast_sd(&mut self) -> (r: Vec<Action>)
        ensures
            views(r@) == crate::runtime::cluster::clustered(old(self)@.pending_unicast_sd),
            final(self)@ == (StateView {
                pending_unicast_sd: Seq::empty(),
                pending_unicast_sd_deadline: None,
                ..old(self)@
            }),
            old(self)@.wf() ==> final(self)@.wf(),
    {
        self.pending_unicast_sd_deadline = None;
        let mut actions: Vec<Action> = Vec::new();
        std::mem::swap(&mut self.pending_unicast_sd, &mut actions);
        assert(self@ =~= (StateView {
            pending_unicast_sd: Seq::empty(),
            pending_unicast_sd_deadline: None,
            ..old(self)@
        }));
        crate::runtime::cluster::cluster_sd_actions(actions)
    }

    /// A new subscription identifier.
    pub fn next_subscription_id(&mut self) -> (r: u64)
        ensures
            r == old(self)@.next_subscription_id,
            final(self)@ == (StateView {
                next_subscription_id: if r == u64::MAX {
                    0
                } else {
                    (r + 1) as u64
                },
                ..old(self)@
            }),
    {
        let id: u64 = self.next_subscription_id;
        self.next_subscription_id = self.next_subscription_id.wrapping_add(1);
        id
    }

    /// The session of the next multicast discovery message.
    pub fn next_multicast_session_id(&mut self) -> (r: u16)
        ensures
            r == old(self)@.multicast_session_id,
            final(self)@ == old(self)@.multicast_session_used(),
            old(self)@.wf() ==> final(self)@.wf() && r != 0,
    {
        let id: u16 = self.multicast_session_id;
        self.multicast_session_id = self.multicast_session_id.wrapping_add(1);
        if self.multicast_session_id == 0 {
            self.multicast_session_id = 1;
            self.multicast_has_wrapped_once = true;
        }
        id
    }

    /// The session of the next unicast discovery message.
    pub fn next_unicast_session_id(&mut self) -> (r: u16)
        ensures
            r == old(self)@.unicast_session_id,
            final(self)@ == old(self)@.unicast_session_used(),
            old(self)@.wf() ==> final(self)@.wf() && r != 0,
    {
        let id: u16 = self.unicast_session_id;
        self.unicast_session_id = self.unicast_session_id.wrapping_add(1);
        if self.unicast_session_id == 0 {
            self.unicast_session_id = 1;
            self.unicast_has_wrapped_once = true;
        }
        id
    }

    /// The session of the next request.
    pub fn next_payload_session_id(&mut self) -> (r: u16)
        ensures
            r == old(self)@.payload_session_id,
            final(self)@ == (StateView { payload_session_id: next_session(r), ..old(self)@ }),
            old(self)@.wf() ==> final(self)@.wf() && r != 0,
    {
        let id: u16 = self.payload_session_id;
        self.payload_session_id = self.payload_session_id.wrapping_add(1);
        if self.payload_session_id == 0 {
            self.payload_session_id = 1;
        }
        id
    }

    /// Whether the multicast sessions have wrapped.
    pub fn multicast_has_wrapped_once(&self) -> (r: bool)
        ensures
            r == self@.multicast_has_wrapped_once,
    {
        self.multicast_has_wrapped_once
    }

    /// Whether the unicast sessions have wrapped.
    pub fn unicast_has_wrapped_once(&self) -> (r: bool)
        ensures
            r == self@.unicast_has_wrapped_once,
    {
        self.unicast_has_wrapped_once
    }

    /// The flags of a discovery message on a channel.
    pub fn sd_flags(&self, unicast: bool) -> (r: u8)
        ensures
            r == self@.flags(unicast),
    {
        let mut flags: u8 = 0;
        assert(0u8 | 0x40u8 == 0x40u8 && 0x40u8 | 0x80u8 == 0xC0u8 && 0u8 | 0x80u8 == 0x80u8)
            by (bit_vector);
        if unicast {
            flags = flags | crate::discovery::FLAG_UNICAST;
            if !self.unicast_has_wrapped_once {
                flags = flags | crate::discovery::FLAG_REBOOT;
            }
        } else if !self.multicast_has_wrapped_once {
            flags = flags | crate::discovery::FLAG_REBOOT;
        }
        flags
    }

    fn uses_port(&self, port: u16, service_id: u16, instance_id: u16) -> (r: bool)
        ensures
            r == self@.subscription_endpoint_usage.contains(
                EndpointUse { port, service_id, instance_id },
            ),
    {
        let u = EndpointUse { port, service_id, instance_id };
        let is_it = |x: EndpointUse| -> (b: bool)
            ensures
                b == (x == u),
            { x == u };
        let r: bool = crate::rows::any(
            &self.subscription_endpoint_usage,
            is_it,
            Ghost(|x: EndpointUse| x == u),
        );
        proof {
            let s = self.subscription_endpoint_usage@;
            if s.contains(u) {
                let i = choose|i: int| 0 <= i < s.len() && s[i] == u;
                assert(s[i] == u);
            }
        }
        r
    }

    /// A local port on which a service instance can receive further events.
    pub fn find_reusable_subscription_endpoint(&self, service_id: u16, instance_id: u16) -> (r:
        Option<u16>)
        ensures
            r == self@.reusable_port(service_id, instance_id),
    {
        let rpc_port: u16 = self.client_rpc_endpoint.port;
        if !self.uses_port(rpc_port, service_id, instance_id) {
            return Some(rpc_port);
        }
        let mut i: usize = 0;
        while i < self.subscription_endpoint_usage.len()
            invariant
                0 <= i <= self.subscription_endpoint_usage@.len(),
                rpc_port == self@.client_rpc_endpoint.port,
                self@.reusable_port(service_id, instance_id) == reusable_from(
                    self@.subscription_endpoint_usage,
                    rpc_port,
                    service_id,
                    instance_id,
                    i as int,
                ),
            decreases self.subscription_endpoint_usage@.len() - i,
        {
            let port: u16 = self.subscription_endpoint_usage[i].port;
            if port != rpc_port && !self.uses_port(port, service_id, instance_id) {
                return Some(port);
            }
            i += 1;
        }
        None
    }

    /// A service instance receives events on a local port.
    pub fn register_subscription_endpoint(&mut self, port: u16, service_id: u16, instance_id: u16)
        ensures
            final(self)@ == old(self)@.port_registered(port, service_id, instance_id),
            old(self)@.wf() ==> final(self)@.wf(),
    {
        if !self.uses_port(port, service_id, instance_id) {
            self.subscription_endpoint_usage.push(EndpointUse { port, service_id, instance_id });
        }
        assert(self@ =~= old(self)@.port_registered(port, service_id, instance_id));
    }

    /// A service instance no longer receives events on a local port.
    pub fn unregister_subscription_endpoint(&mut self, port: u16, service_id: u16, instance_id: u16)
        ensures
            final(self)@ == old(self)@.port_unregistered(port, service_id, instance_id),
            old(self)@.wf() ==> final(self)@.wf(),
    {
        let u = EndpointUse { port, service_id, instance_id };
        proof {
            if self@.wf() {
                lemma_filter_no_duplicates(self.subscription_endpoint_usage@, other_use(u));
            }
        }
        let is_other = |x: EndpointUse| -> (b: bool)
            ensures
                b == (x != u),
            { x != u };
        crate::rows::keep(&mut self.subscription_endpoint_usage, is_other, Ghost(other_use(u)));
        assert(self@ =~= old(self)@.port_unregistered(port, service_id, instance_id));
    }
}

/// Filtering adds no duplicates.
pub proof fn lemma_filter_no_duplicates<T>(s: Seq<T>, p: spec_fn(T) -> bool)
    requires
        s.no_duplicates(),
    ensures
        s.filter(p).no_duplicates(),
    decreases s.len(),
{
    reveal(Seq::filter);
    if s.len() > 0 {
        let t = s.drop_last();
        lemma_filter_no_duplicates(t, p);
        let f = t.filter(p);
        if p(s.last()) {
            assert(!f.contains(s.last())) by {
                crate::rows::lemma_filter_contains(t, p, s.last());
                if t.contains(s.last()) {
                    let i = choose|i: int| 0 <= i < t.len() && t[i] == s.last();
                    assert(s[i] == s[s.len() - 1]);
                }
            }
            let g = f.push(s.last());
            assert forall|i: int, j: int| 0 <= i < g.len() && 0 <= j < g.len() && i != j implies g[i]
                != g[j] by {
                if i < f.len() && j < f.len() {
                    assert(f[i] != f[j]);
                } else if i < f.len() {
                    assert(f.contains(f[i]));
                } else {
                    assert(f.contains(f[j]));
                }
            }
        }
    }
}

/// The reboot flag of a channel is up until its sessions have wrapped, and the unicast
/// flag says which channel it is.
pub proof fn flag_laws(s: StateView, unicast: bool)
    ensures
        (s.flags(unicast) & 0x40 != 0) == unicast,
        (s.flags(unicast) & 0x80 != 0) == !(if unicast {
            s.unicast_has_wrapped_once
        } else {
            s.multicast_has_wrapped_once
        }),
{
    assert(0x40u8 & 0x40u8 != 0 && 0xC0u8 & 0x40u8 != 0 && 0x80u8 & 0x40u8 == 0 && 0x00u8 & 0x40u8
        == 0 && 0x40u8 & 0x80u8 == 0 && 0xC0u8 & 0x80u8 != 0 && 0x80u8 & 0x80u8 != 0 && 0x00u8
        & 0x80u8 == 0) by (bit_vector);
}

/// Once its sessions have wrapped, a channel never raises the reboot flag again, whatever
/// session is used next; using a session of one channel leaves the other channel alone.
pub proof fn reboot_flag_stays_down(s: StateView)
    ensures
        s.multicast_has_wrapped_once ==> s.multicast_session_used().multicast_has_wrapped_once,
        s.unicast_has_wrapped_once ==> s.unicast_session_used().unicast_has_wrapped_once,
        s.multicast_session_used().flags(true) == s.flags(true),
        s.unicast_session_used().flags(false) == s.flags(false),
        s.multicast_session_used().unicast_session_id == s.unicast_session_id,
        s.unicast_session_used().multicast_session_id == s.multicast_session_id,
{
}

/// A reusable port is the request port or one that another service instance uses, and it
/// is free for this service instance; where there is none, every port in use is taken.
pub proof fn reusable_port_is_free(s: StateView, service_id: u16, instance_id: u16)
    ensures
        s.reusable_port(service_id, instance_id) matches Some(port) ==> {
            &&& !s.subscription_endpoint_usage.contains(
                EndpointUse { port, service_id, instance_id },
            )
            &&& port == s.client_rpc_endpoint.port || exists|i: int|
                0 <= i < s.subscription_endpoint_usage.len() && (
                #[trigger] s.subscription_endpoint_usage[i]).port == port
        },
        s.reusable_port(service_id, instance_id) is None ==> forall|i: int|
            0 <= i < s.subscription_endpoint_usage.len()
                ==> s.subscription_endpoint_usage.contains(
                EndpointUse {
                    port: (#[trigger] s.subscription_endpoint_usage[i]).port,
                    service_id,
                    instance_id,
                },
            ),
{
    lemma_reusable_from(
        s.subscription_endpoint_usage,
        s.client_rpc_endpoint.port,
        service_id,
        instance_id,
        0,
    );
}

proof fn lemma_reusable_from(
    usage: Seq<EndpointUse>,
    rpc_port: u16,
    service_id: u16,
    instance_id: u16,
    i: int,
)
    requires
        0 <= i <= usage.len(),
    ensures
        reusable_from(usage, rpc_port, service_id, instance_id, i) matches Some(port) ==> {
            &&& !usage.contains(EndpointUse { port, service_id, instance_id })
            &&& exists|j: int| 0 <= j < usage.len() && (#[trigger] usage[j]).port == port
        },
        reusable_from(usage, rpc_port, service_id, instance_id, i) is None ==> forall|j: int|
            i <= j < usage.len() ==> (#[trigger] usage[j]).port == rpc_port || usage.contains(
                EndpointUse { port: usage[j].port, service_id, instance_id },
            ),
    decreases usage.len() - i,
{
    if i < usage.len() {
        lemma_reusable_from(usage, rpc_port, service_id, instance_id, i + 1);
    }
}

/// Registering a port and giving it up again undo each other, where it was not registered
/// before.
pub proof fn port_registration_is_undone(
    s: StateView,
    port: u16,
    service_id: u16,
    instance_id: u16,
)
    requires
        s.wf(),
        !s.subscription_endpoint_usage.contains(EndpointUse { port, service_id, instance_id }),
    ensures
        s.port_registered(port, service_id, instance_id).port_unregistered(
            port,
            service_id,
            instance_id,
        ) == s,
        s.port_registered(port, service_id, instance_id).subscription_endpoint_usage.contains(
            EndpointUse { port, service_id, instance_id },
        ),
        !s.port_unregistered(port, service_id, instance_id).subscription_endpoint_usage.contains(
            EndpointUse { port, service_id, instance_id },
        ),
{
    let u = EndpointUse { port, service_id, instance_id };
    let usage = s.subscription_endpoint_usage;
    assert(usage.push(u)[usage.len() as int] == u);
    crate::rows::lemma_filter_push(usage, u, other_use(u));
    assert forall|i: int| 0 <= i < usage.len() implies other_use(u)(#[trigger] usage[i]) by {
        assert(usage.contains(usage[i]));
    }
    crate::rows::lemma_filter_all(usage, other_use(u));
    crate::rows::lemma_filter_contains(usage, other_use(u), u);
    assert(s.port_registered(port, service_id, instance_id).port_unregistered(
        port,
        service_id,
        instance_id,
    ) =~= s);
}

} // verus!
