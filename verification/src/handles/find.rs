//! A search in the making.

use crate::config::{OfferedEndpoints, Transport};
use crate::error::Error;
use crate::handles::proxy::OfferedService;
use crate::ids::{InstanceId, MajorVersion, ServiceId};
use crate::message::{ChannelId, ServiceAvailability};
use crate::runtime::command::Command;
use vstd::prelude::*;

verus! {

/// A search in the making.
pub struct FindBuilder {
    /// The service.
    pub service_id: ServiceId,
    /// The instance.
    pub instance_id: InstanceId,
    /// The major version.
    pub major_version: MajorVersion,
}

impl FindBuilder {
    /// A search for any instance in any version.
    pub fn new(service_id: ServiceId) -> (r: Self)
        ensures
            r == (FindBuilder {
                service_id,
                instance_id: InstanceId::Any,
                major_version: MajorVersion::Any,
            }),
    {
        FindBuilder { service_id, instance_id: InstanceId::Any, major_version: MajorVersion::Any }
    }

    /// Of this instance.
    pub fn instance(self, instance: InstanceId) -> (r: Self)
        ensures
            r == (FindBuilder { instance_id: instance, ..self }),
    {
        FindBuilder { instance_id: instance, ..self }
    }

    /// In this major version.
    pub fn major_version(self, version: MajorVersion) -> (r: Self)
        ensures
            r == (FindBuilder { major_version: version, ..self }),
    {
        FindBuilder { major_version: version, ..self }
    }

    /// The command that searches.
    pub fn command(&self, notify: ChannelId) -> (r: Command)
        ensures
            r == (Command::Find {
                service_id: self.service_id,
                instance_id: self.instance_id,
                major_version: self.major_version,
                notify,
            }),
    {
        Command::Find {
            service_id: self.service_id,
            instance_id: self.instance_id,
            major_version: self.major_version,
            notify,
        }
    }

    /// The service that the answer names; without answer there is none.
    pub fn found(&self, answer: Option<ServiceAvailability>, preferred_transport: Transport) -> (r:
        Result<OfferedService, Error>)
        ensures
            match answer {
                Some(ServiceAvailability::Available {
                    endpoint,
                    transport,
                    instance_id,
                    major_version,
                }) => r == Ok::<OfferedService, Error>(
                    OfferedService {
                        service_id: self.service_id,
                        instance_id: InstanceId::Id(instance_id),
                        major_version,
                        remote_endpoints: match transport {
                            Transport::Tcp => OfferedEndpoints::TcpOnly(endpoint),
                            Transport::Udp => OfferedEndpoints::UdpOnly(endpoint),
                        },
                        find_criteria: Some((self.instance_id, self.major_version)),
                        preferred_transport,
                    },
                ),
                None => r == Err::<OfferedService, Error>(Error::NotAvailable),
            },
    {
        match answer {
            Some(ServiceAvailability::Available {
                endpoint,
                transport,
                instance_id,
                major_version,
            }) => Ok(
                OfferedService {
                    service_id: self.service_id,
                    instance_id: InstanceId::Id(instance_id),
                    major_version,
                    remote_endpoints: match transport {
                        Transport::Tcp => OfferedEndpoints::TcpOnly(endpoint),
                        Transport::Udp => OfferedEndpoints::UdpOnly(endpoint),
                    },
                    find_criteria: Some((self.instance_id, self.major_version)),
                    preferred_transport,
                },
            ),
            None => Err(Error::NotAvailable),
        }
    }
}

} // verus!
