//! An offer in the making.

use crate::config::{MethodConfig, OfferConfig, RuntimeConfig};
use crate::ids::{InstanceId, ServiceId};
use crate::message::ChannelId;
use crate::runtime::command::Command;
use vstd::prelude::*;

verus! {

/// An offer in the making.
pub struct OfferBuilder {
    /// The service.
    pub service_id: ServiceId,
    /// The instance.
    pub instance: InstanceId,
    /// The major version.
    pub major_version: u8,
    /// The minor version.
    pub minor_version: u32,
    /// The transports.
    pub config: OfferConfig,
}

impl OfferBuilder {
    /// An offer in version 0.0, without transport.
    pub fn new(service_id: ServiceId, instance: InstanceId) -> (r: Self)
        ensures
            r.service_id == service_id,
            r.instance == instance,
            r.major_version == 0,
            r.minor_version == 0,
            r.config.tcp_port is None,
            r.config.udp_port is None,
            r.config.method_config@ == Set::<u16>::empty(),
    {
        OfferBuilder {
            service_id,
            instance,
            major_version: 0,
            minor_version: 0,
            config: OfferConfig::new(),
        }
    }

    /// In this version.
    pub fn version(self, major: u8, minor: u32) -> (r: Self)
        ensures
            r == (OfferBuilder { major_version: major, minor_version: minor, ..self }),
    {
        OfferBuilder { major_version: major, minor_version: minor, ..self }
    }

    /// Also over TCP, on the default port.
    pub fn tcp(self) -> (r: Self)
        ensures
            r == (OfferBuilder {
                config: OfferConfig { tcp_port: Some(0), ..self.config },
                ..self
            }),
    {
        OfferBuilder { config: self.config.tcp(), ..self }
    }

    /// Also over TCP, on this port.
    pub fn tcp_port(self, port: u16) -> (r: Self)
        ensures
            r == (OfferBuilder {
                config: OfferConfig { tcp_port: Some(port), ..self.config },
                ..self
            }),
    {
        OfferBuilder { config: self.config.tcp_port(port), ..self }
    }

    /// Also over UDP, on the default port.
    pub fn udp(self) -> (r: Self)
        ensures
            r == (OfferBuilder {
                config: OfferConfig { udp_port: Some(0), ..self.config },
                ..self
            }),
    {
        OfferBuilder { config: self.config.udp(), ..self }
    }

    /// Also over UDP, on this port.
    pub fn udp_port(self, port: u16) -> (r: Self)
        ensures
            r == (OfferBuilder {
                config: OfferConfig { udp_port: Some(port), ..self.config },
                ..self
            }),
    {
        OfferBuilder { config: self.config.udp_port(port), ..self }
    }

    /// With these settings of single methods.
    pub fn method_config(self, config: MethodConfig) -> (r: Self)
        ensures
            r == (OfferBuilder {
                config: OfferConfig { method_config: config, ..self.config },
                ..self
            }),
    {
        OfferBuilder { config: self.config.method_config(config), ..self }
    }

    /// The command that makes the offer; without transport it uses the runtime's preferred
    /// one.
    pub fn start(self, runtime: &RuntimeConfig, requests: ChannelId, response: ChannelId) -> (r:
        Command)
        ensures
            r == (Command::Offer {
                service_id: self.service_id,
                instance_id: self.instance,
                major_version: self.major_version,
                minor_version: self.minor_version,
                offer_config: self.config.with_fallback(runtime.preferred()),
                requests,
                response,
            }),
    {
        Command::Offer {
            service_id: self.service_id,
            instance_id: self.instance,
            major_version: self.major_version,
            minor_version: self.minor_version,
            offer_config: self.config.or_preferred(runtime.preferred_transport()),
            requests,
            response,
        }
    }
}

} // verus!
