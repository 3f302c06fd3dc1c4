//! The events of an offered service.

use crate::buffer::{content, copy_from_slice};
use crate::error::{ConfigError, Error, ErrorView};
use crate::ids::{EventId, EventgroupId, InstanceId, ServiceId};
use crate::message::ChannelId;
use crate::runtime::command::Command;
use vstd::prelude::*;

verus! {

/// The raw identifiers of eventgroups.
pub open spec fn raw_ids(groups: Seq<EventgroupId>) -> Seq<u16> {
    groups.map_values(|g: EventgroupId| g@)
}

/// The raw identifiers of eventgroups.
pub(crate) fn ids_of(groups: &Vec<EventgroupId>) -> (r: Vec<u16>)
    ensures
        r@ == raw_ids(groups@),
{
    let mut r: Vec<u16> = Vec::new();
    let mut i: usize = 0;
    while i < groups.len()
        invariant
            0 <= i <= groups@.len(),
            r@ == raw_ids(groups@).take(i as int),
        decreases groups@.len() - i,
    {
        proof {
            crate::rows::lemma_take_step(raw_ids(groups@), i as int);
        }
        r.push(groups[i].value());
        i += 1;
    }
    assert(raw_ids(groups@).take(i as int) =~= raw_ids(groups@));
    r
}

/// Whether an eventgroup is among others.
pub(crate) fn includes(groups: &Vec<EventgroupId>, group: EventgroupId) -> (r: bool)
    ensures
        r == raw_ids(groups@).contains(group@),
{
    let ghost ids = raw_ids(groups@);
    let mut i: usize = 0;
    while i < groups.len()
        invariant
            0 <= i <= groups@.len(),
            ids == raw_ids(groups@),
            forall|j: int| 0 <= j < i ==> #[trigger] ids[j] != group@,
        decreases groups@.len() - i,
    {
        if groups[i].value() == group.value() {
            assert(ids[i as int] == group@);
            return true;
        }
        i += 1;
    }
    false
}

/// An event in the making.
pub struct EventBuilder {
    /// The service.
    pub service_id: ServiceId,
    /// The instance.
    pub instance_id: InstanceId,
    /// The major version.
    pub major_version: u8,
    /// The event.
    pub event_id: EventId,
    /// Its eventgroups, each once.
    pub eventgroups: Vec<EventgroupId>,
}

impl EventBuilder {
    /// An event without eventgroups.
    pub fn new(
        service_id: ServiceId,
        instance_id: InstanceId,
        major_version: u8,
        event_id: EventId,
    ) -> (r: Self)
        ensures
            r.service_id == service_id,
            r.instance_id == instance_id,
            r.major_version == major_version,
            r.event_id == event_id,
            raw_ids(r.eventgroups@) == Seq::<u16>::empty(),
    {
        let r = EventBuilder {
            service_id,
            instance_id,
            major_version,
            event_id,
            eventgroups: Vec::new(),
        };
        assert(raw_ids(r.eventgroups@) =~= Seq::<u16>::empty());
        r
    }

    /// The event also belongs to an eventgroup.
    pub fn eventgroup(self, eventgroup: EventgroupId) -> (r: Self)
        ensures
            raw_ids(r.eventgroups@) == (if raw_ids(self.eventgroups@).contains(eventgroup@) {
                raw_ids(self.eventgroups@)
            } else {
                raw_ids(self.eventgroups@).push(eventgroup@)
            }),
            raw_ids(self.eventgroups@).no_duplicates() ==> raw_ids(
                r.eventgroups@,
            ).no_duplicates(),
            r.service_id == self.service_id,
            r.instance_id == self.instance_id,
            r.major_version == self.major_version,
            r.event_id == self.event_id,
    {
        let ghost before = raw_ids(self.eventgroups@);
        let mut eventgroups = self.eventgroups;
        if !includes(&eventgroups, eventgroup) {
            eventgroups.push(eventgroup);
            assert(raw_ids(eventgroups@) =~= before.push(eventgroup@));
        }
        EventBuilder {
            service_id: self.service_id,
            instance_id: self.instance_id,
            major_version: self.major_version,
            event_id: self.event_id,
            eventgroups,
        }
    }

    /// The command that registers the event; an event needs an eventgroup.
    pub fn create(&self, response: ChannelId) -> (r: Result<Command, Error>)
        ensures
            self.eventgroups@.len() == 0 ==> (r matches Err(e) && e@ == ErrorView::Config(
                "Event must belong to at least one eventgroup"@,
            )),
            self.eventgroups@.len() > 0 ==> r == Ok::<Command, Error>(
                Command::RegisterEvent {
                    service_id: self.service_id,
                    instance_id: self.instance_id,
                    major_version: self.major_version,
                    event_id: self.event_id@,
                    response,
                },
            ),
    {
        if self.eventgroups.len() == 0 {
            return Err(
                Error::Config(ConfigError::new("Event must belong to at least one eventgroup")),
            );
        }
        Ok(
            Command::RegisterEvent {
                service_id: self.service_id,
                instance_id: self.instance_id,
                major_version: self.major_version,
                event_id: self.event_id.value(),
                response,
            },
        )
    }

    /// The event's handle once it was registered, or why it was not.
    pub fn registered(self, outcome: Result<(), Error>) -> (r: Result<EventHandle, Error>)
        ensures
            match outcome {
                Ok(_) => r == Ok::<EventHandle, Error>(
                    EventHandle {
                        service_id: self.service_id,
                        instance_id: self.instance_id,
                        major_version: self.major_version,
                        event_id: self.event_id,
                        eventgroups: self.eventgroups,
                    },
                ),
                Err(e) => r == Err::<EventHandle, Error>(e),
            },
    {
        match outcome {
            Ok(_) => Ok(
                EventHandle {
                    service_id: self.service_id,
                    instance_id: self.instance_id,
                    major_version: self.major_version,
                    event_id: self.event_id,
                    eventgroups: self.eventgroups,
                },
            ),
            Err(e) => Err(e),
        }
    }
}

/// An event of an offered service.
pub struct EventHandle {
    /// The service.
    pub service_id: ServiceId,
    /// The instance.
    pub instance_id: InstanceId,
    /// The major version.
    pub major_version: u8,
    /// The event.
    pub event_id: EventId,
    /// Its eventgroups.
    pub eventgroups: Vec<EventgroupId>,
}

impl EventHandle {
    /// The command that sends the event to the subscribers of all its eventgroups.
    pub fn notify(&self, payload: &[u8]) -> (r: Command)
        ensures
            r matches Command::Notify {
                service_id,
                instance_id,
                major_version,
                eventgroup_ids,
                event_id,
                payload: data,
            } && service_id == self.service_id && instance_id == self.instance_id
                && major_version == self.major_version && eventgroup_ids@ == raw_ids(
                self.eventgroups@,
            ) && event_id == self.event_id@ && content(data) == payload@,
    {
        Command::Notify {
            service_id: self.service_id,
            instance_id: self.instance_id,
            major_version: self.major_version,
            eventgroup_ids: ids_of(&self.eventgroups),
            event_id: self.event_id.value(),
            payload: copy_from_slice(payload),
        }
    }

    /// The event.
    pub fn id(&self) -> (r: EventId)
        ensures
            r == self.event_id,
    {
        self.event_id
    }

    /// The event's eventgroups.
    pub fn eventgroups(&self) -> (r: &[EventgroupId])
        ensures
            r@ == self.eventgroups@,
    {
        self.eventgroups.as_slice()
    }
}

} // verus!
