//! A service that is offered.

use crate::handles::event::{raw_ids, EventBuilder};
use crate::ids::{EventId, InstanceId, ServiceId};
use crate::runtime::command::Command;
use vstd::prelude::*;

verus! {

/// A service that is offered.
pub struct ServiceOffering {
    /// The service.
    pub service_id: ServiceId,
    /// The instance.
    pub instance_id: InstanceId,
    /// The major version.
    pub major_version: u8,
}

impl ServiceOffering {
    /// The handle of a service that is offered.
    pub fn new(service_id: ServiceId, instance_id: InstanceId, major_version: u8) -> (r: Self)
        ensures
            r == (ServiceOffering { service_id, instance_id, major_version }),
    {
        ServiceOffering { service_id, instance_id, major_version }
    }

    /// An event of the service, still without eventgroups.
    pub fn event(&self, event_id: EventId) -> (r: EventBuilder)
        ensures
            r.service_id == self.service_id,
            r.instance_id == self.instance_id,
            r.major_version == self.major_version,
            r.event_id == event_id,
            raw_ids(r.eventgroups@) == Seq::<u16>::empty(),
    {
        EventBuilder::new(self.service_id, self.instance_id, self.major_version, event_id)
    }

    /// The service.
    pub fn service_id(&self) -> (r: ServiceId)
        ensures
            r == self.service_id,
    {
        self.service_id
    }

    /// The instance.
    pub fn instance_id(&self) -> (r: InstanceId)
        ensures
            r == self.instance_id,
    {
        self.instance_id
    }

    /// The command that withdraws the offer when its handle is given up.
    pub fn stop(&self) -> (r: Command)
        ensures
            r == (Command::StopOffer {
                service_id: self.service_id,
                instance_id: self.instance_id,
                major_version: self.major_version,
            }),
    {
        Command::StopOffer {
            service_id: self.service_id,
            instance_id: self.instance_id,
            major_version: self.major_version,
        }
    }
}

} // verus!
