//! A service of another host.

use crate::buffer::{content, copy_from_slice};
use crate::config::{OfferedEndpoints, Transport, TransportPolicy};
use crate::handles::subscription::SubscriptionBuilder;
use crate::ids::{EventgroupId, InstanceId, MajorVersion, MethodId, ServiceId};
use crate::message::ChannelId;
use crate::net::SocketAddr;
use crate::nonempty::elements;
use crate::runtime::command::Command;
use crate::runtime::state::{DiscoveredService, ServiceKey};
use vstd::prelude::*;

verus! {

/// A service of another host.
pub struct OfferedService {
    /// The service.
    pub service_id: ServiceId,
    /// The instance.
    pub instance_id: InstanceId,
    /// The major version.
    pub major_version: u8,
    /// Where the service runs.
    pub remote_endpoints: OfferedEndpoints,
    /// What was searched, where the service was found by a search.
    pub find_criteria: Option<(InstanceId, MajorVersion)>,
    /// The transport that is used where both are offered.
    pub preferred_transport: Transport,
}

impl OfferedService {
    /// The endpoint to use: the preferred one where both are offered.
    pub open spec fn effective(self) -> (SocketAddr, Transport) {
        match self.remote_endpoints {
            OfferedEndpoints::UdpOnly(addr) => (addr, Transport::Udp),
            OfferedEndpoints::TcpOnly(addr) => (addr, Transport::Tcp),
            OfferedEndpoints::Both { udp, tcp } => match self.preferred_transport {
                Transport::Udp => (udp, Transport::Udp),
                Transport::Tcp => (tcp, Transport::Tcp),
            },
        }
    }

    /// The service's key.
    pub open spec fn key(self) -> ServiceKey {
        ServiceKey::of(self.service_id, self.instance_id, self.major_version)
    }

    /// A service at a place that is known without search.
    pub fn new(
        preferred_transport: Transport,
        service_id: ServiceId,
        instance_id: InstanceId,
        major_version: u8,
        offered_endpoints: OfferedEndpoints,
    ) -> (r: Self)
        ensures
            r == (OfferedService {
                service_id,
                instance_id,
                major_version,
                remote_endpoints: offered_endpoints,
                find_criteria: None,
                preferred_transport,
            }),
    {
        OfferedService {
            service_id,
            instance_id,
            major_version,
            remote_endpoints: offered_endpoints,
            find_criteria: None,
            preferred_transport,
        }
    }

    fn effective_transport_endpoint(&self) -> (r: (SocketAddr, Transport))
        ensures
            r == self.effective(),
    {
        match self.remote_endpoints {
            OfferedEndpoints::UdpOnly(addr) => (addr, Transport::Udp),
            OfferedEndpoints::TcpOnly(addr) => (addr, Transport::Tcp),
            OfferedEndpoints::Both { udp, tcp } => match self.preferred_transport {
                Transport::Udp => (udp, Transport::Udp),
                Transport::Tcp => (tcp, Transport::Tcp),
            },
        }
    }

    /// The transport that calls use.
    pub fn transport(&self) -> (r: Transport)
        ensures
            r == self.effective().1,
    {
        self.effective_transport_endpoint().1
    }

    /// The endpoint that calls use.
    pub fn endpoint(&self) -> (r: SocketAddr)
        ensures
            r == self.effective().0,
    {
        self.effective_transport_endpoint().0
    }

    /// The command that calls a method.
    pub fn call(&self, method: MethodId, payload: &[u8], response: ChannelId) -> (r: Command)
        ensures
            r matches Command::Call {
                service_id,
                method_id,
                payload: data,
                response: to,
                target_endpoint,
                target_transport,
            } && service_id == self.service_id && method_id == method@ && content(data)
                == payload@ && to == response && (target_endpoint, target_transport)
                == self.effective(),
    {
        let (target_endpoint, target_transport) = self.effective_transport_endpoint();
        Command::Call {
            service_id: self.service_id,
            method_id: method.value(),
            payload: copy_from_slice(payload),
            response,
            target_endpoint,
            target_transport,
        }
    }

    /// The command that calls a method without awaiting a response.
    pub fn fire_and_forget(&self, method: MethodId, payload: &[u8]) -> (r: Command)
        ensures
            r matches Command::FireAndForget {
                service_id,
                method_id,
                payload: data,
                target_endpoint,
                target_transport,
            } && service_id == self.service_id && method_id == method@ && content(data)
                == payload@ && (target_endpoint, target_transport) == self.effective(),
    {
        let (target_endpoint, target_transport) = self.effective_transport_endpoint();
        Command::FireAndForget {
            service_id: self.service_id,
            method_id: method.value(),
            payload: copy_from_slice(payload),
            target_endpoint,
            target_transport,
        }
    }

    /// A subscription to an eventgroup in the making, with the transports of a policy.
    pub fn subscribe(&self, eventgroup: EventgroupId, policy: TransportPolicy) -> (r:
        SubscriptionBuilder)
        ensures
            r.service_id == self.service_id,
            r.instance_id == self.instance_id,
            r.major_version == self.major_version,
            elements(r.eventgroups) == seq![eventgroup@],
            r.transport_policy == policy,
            r.remote_endpoints == self.remote_endpoints,
            r.wf(),
    {
        SubscriptionBuilder::new(
            self.service_id,
            self.instance_id,
            self.major_version,
            eventgroup,
            policy,
            self.remote_endpoints,
        )
    }

    /// The service.
    pub fn service_id(&self) -> (r: ServiceId)
        ensures
            r == self.service_id,
    {
        self.service_id
    }

    /// The instance.
    pub fn instance_id(&self) -> (r: InstanceId)
        ensures
            r == self.instance_id,
    {
        self.instance_id
    }

    /// The major version.
    pub fn major_version(&self) -> (r: u8)
        ensures
            r == self.major_version,
    {
        self.major_version
    }

    /// Whether the service is still offered, given what is known of it.
    pub fn is_offer_alive(&self, known: Option<DiscoveredService>, now: u64) -> (r: bool)
        ensures
            r == (known matches Some(d) && now < d.ttl_expires),
    {
        match known {
            Some(d) => d.is_alive(now),
            None => false,
        }
    }

    /// The command that ends the search by which the service was found, when the handle is
    /// given up. It names what was searched, wildcards included.
    pub fn stop_find(&self) -> (r: Option<Command>)
        ensures
            r == (match self.find_criteria {
                Some((instance_id, major_version)) => Some(
                    Command::StopFind { service_id: self.service_id, instance_id, major_version },
                ),
                None => None,
            }),
    {
        match self.find_criteria {
            Some((instance_id, major_version)) => Some(
                Command::StopFind { service_id: self.service_id, instance_id, major_version },
            ),
            None => None,
        }
    }
}

} // verus!
