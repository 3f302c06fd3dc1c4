//! A service instance that is bound, and may be announced.

use crate::buffer::{content, copy_from_slice};
use crate::error::Error;
use crate::handles::event::{includes, raw_ids};
use crate::ids::{EventId, EventgroupId, InstanceId, ServiceId};
use crate::message::ChannelId;
use crate::net::SocketAddr;
use crate::runtime::command::Command;
use crate::table::{distinct, map_table, put, Table};
use core::marker::PhantomData;
use vstd::prelude::*;

verus! {

/// The service instance listens, but is not announced.
#[derive(Clone, Copy, Debug)]
pub struct Bound;

/// The service instance listens and is announced.
#[derive(Clone, Copy, Debug)]
pub struct Announced;

/// What an instance asks of the runtime about its announcement.
#[derive(Clone, Copy, PartialEq, Eq, Structural, Debug)]
pub enum AnnouncementRequest {
    /// Announce a bound service.
    StartAnnouncing {
        /// The service.
        service_id: ServiceId,
        /// The instance.
        instance_id: InstanceId,
        /// The major version.
        major_version: u8,
        /// Where the outcome goes.
        response: ChannelId,
    },
    /// Withdraw the announcement; the service stays bound.
    StopAnnouncing {
        /// The service.
        service_id: ServiceId,
        /// The instance.
        instance_id: InstanceId,
        /// The major version.
        major_version: u8,
        /// Where the outcome goes.
        response: ChannelId,
    },
}

/// A service instance, bound or announced.
pub struct ServiceInstance<State> {
    /// The service.
    pub service_id: ServiceId,
    /// The instance.
    pub instance_id: InstanceId,
    /// The major version.
    pub major_version: u8,
    /// Subscribers without subscription, with their eventgroups.
    pub static_subscribers: Table<SocketAddr, Vec<EventgroupId>>,
    /// Whether it is announced.
    pub state: PhantomData<State>,
}

/// The raw eventgroups of a subscriber.
pub open spec fn group_ids() -> spec_fn(Vec<EventgroupId>) -> Seq<u16> {
    |groups: Vec<EventgroupId>| raw_ids(groups@)
}

/// What a [`ServiceInstance`] says.
pub struct InstanceView {
    /// The service.
    pub service_id: ServiceId,
    /// The instance.
    pub instance_id: InstanceId,
    /// The major version.
    pub major_version: u8,
    /// Subscribers without subscription, with their eventgroups.
    pub static_subscribers: Seq<(SocketAddr, Seq<u16>)>,
}

impl InstanceView {
    /// No address occurs twice.
    pub open spec fn wf(self) -> bool {
        distinct(self.static_subscribers)
    }

    /// The command sends an event to exactly the subscribers without subscription that receive
    /// the eventgroup; without such subscribers there is none.
    pub open spec fn notifies_static(
        self,
        eventgroup: u16,
        event: u16,
        data: Seq<u8>,
        command: Option<Command>,
    ) -> bool {
        let receivers = static_targets(
            self.static_subscribers,
            eventgroup,
            self.static_subscribers.len() as int,
        );
        match command {
            Some(
                Command::NotifyStatic {
                    service_id,
                    instance_id,
                    major_version,
                    eventgroup_id,
                    event_id,
                    payload,
                    targets,
                },
            ) => {
                &&& receivers.len() > 0
                &&& targets@ == receivers
                &&& service_id == self.service_id
                &&& instance_id == self.instance_id
                &&& major_version == self.major_version
                &&& eventgroup_id == eventgroup
                &&& event_id == event
                &&& content(payload) == data
            },
            Some(_) => false,
            None => receivers.len() == 0,
        }
    }
}

impl<State> View for ServiceInstance<State> {
    type V = InstanceView;

    open spec fn view(&self) -> InstanceView {
        InstanceView {
            service_id: self.service_id,
            instance_id: self.instance_id,
            major_version: self.major_version,
            static_subscribers: map_table(self.static_subscribers@, group_ids()),
        }
    }
}

/// The first `n` subscribers, as far as they receive the eventgroup.
pub open spec fn static_targets(
    subscribers: Seq<(SocketAddr, Seq<u16>)>,
    eventgroup: u16,
    n: int,
) -> Seq<SocketAddr>
    decreases n,
{
    if n <= 0 {
        Seq::empty()
    } else {
        let before = static_targets(subscribers, eventgroup, n - 1);
        if subscribers[n - 1].1.contains(eventgroup) {
            before.push(subscribers[n - 1].0)
        } else {
            before
        }
    }
}

proof fn lemma_distinct_addresses(s: Seq<(SocketAddr, Vec<EventgroupId>)>)
    ensures
        distinct(map_table(s, group_ids())) ==> distinct(s),
{
    let m = map_table(s, group_ids());
    if distinct(m) {
        assert forall|i: int, j: int| 0 <= i < j < s.len() implies (#[trigger] s[i]).0 != (
        #[trigger] s[j]).0 by {
            assert(m[i].0 == s[i].0 && m[j].0 == s[j].0);
        }
    }
}

proof fn lemma_targets_exist(
    subscribers: Seq<(SocketAddr, Seq<u16>)>,
    eventgroup: u16,
    n: int,
)
    requires
        0 <= n <= subscribers.len(),
    ensures
        static_targets(subscribers, eventgroup, n).len() > 0 <==> exists|i: int|
            0 <= i < n && (#[trigger] subscribers[i]).1.contains(eventgroup),
    decreases n,
{
    if n > 0 {
        lemma_targets_exist(subscribers, eventgroup, n - 1);
        if subscribers[n - 1].1.contains(eventgroup) {
            assert(static_targets(subscribers, eventgroup, n).len() > 0);
        }
    }
}

impl<State> ServiceInstance<State> {
    fn targets(&self, eventgroup: EventgroupId) -> (r: Vec<SocketAddr>)
        ensures
            r@ == static_targets(
                self@.static_subscribers,
                eventgroup@,
                self@.static_subscribers.len() as int,
            ),
    {
        let ghost subscribers = self@.static_subscribers;
        let mut targets: Vec<SocketAddr> = Vec::new();
        let mut i: usize = 0;
        while i < self.static_subscribers.len()
            invariant
                0 <= i <= subscribers.len(),
                subscribers == self@.static_subscribers,
                targets@ == static_targets(subscribers, eventgroup@, i as int),
            decreases subscribers.len() - i,
        {
            if includes(self.static_subscribers.value_at(i), eventgroup) {
                targets.push(self.static_subscribers.key_at(i));
            }
            i += 1;
        }
        targets
    }

    /// The command that sends an event to the subscribers without subscription that receive the
    /// eventgroup; `None` where there are none.
    pub fn notify_static(&self, eventgroup: EventgroupId, event_id: EventId, payload: &[u8]) -> (r:
        Option<Command>)
        ensures
            self@.notifies_static(eventgroup@, event_id@, payload@, r),
    {
        let targets = self.targets(eventgroup);
        if targets.len() == 0 {
            return None;
        }
        Some(
            Command::NotifyStatic {
                service_id: self.service_id,
                instance_id: self.instance_id,
                major_version: self.major_version,
                eventgroup_id: eventgroup.value(),
                event_id: event_id.value(),
                payload: copy_from_slice(payload),
                targets,
            },
        )
    }

    /// The service.
    pub fn service_id(&self) -> (r: ServiceId)
        ensures
            r == self.service_id,
    {
        self.service_id
    }

    /// The instance.
    pub fn instance_id(&self) -> (r: InstanceId)
        ensures
            r == self.instance_id,
    {
        self.instance_id
    }

    /// The command that withdraws the instance when its handle is given up.
    pub fn stop(&self) -> (r: Command)
        ensures
            r == (Command::StopOffer {
                service_id: self.service_id,
                instance_id: self.instance_id,
                major_version: self.major_version,
            }),
    {
        Command::StopOffer {
            service_id: self.service_id,
            instance_id: self.instance_id,
            major_version: self.major_version,
        }
    }
}

impl ServiceInstance<Bound> {
    /// An instance that is bound, without subscribers.
    pub fn new(service_id: ServiceId, instance_id: InstanceId, major_version: u8) -> (r: Self)
        ensures
            r@ == (InstanceView {
                service_id,
                instance_id,
                major_version,
                static_subscribers: Seq::empty(),
            }),
            r@.wf(),
    {
        let r = ServiceInstance {
            service_id,
            instance_id,
            major_version,
            static_subscribers: Table::new(),
            state: PhantomData,
        };
        assert(r@.static_subscribers =~= Seq::<(SocketAddr, Seq<u16>)>::empty());
        r
    }

    /// A subscriber without subscription receives eventgroups, in place of those that it
    /// received before.
    pub fn add_static_subscriber(&mut self, address: SocketAddr, eventgroups: &[EventgroupId])
        requires
            old(self)@.wf(),
        ensures
            final(self)@ == (InstanceView {
                static_subscribers: put(
                    old(self)@.static_subscribers,
                    address,
                    raw_ids(eventgroups@),
                ),
                ..old(self)@
            }),
            final(self)@.wf(),
    {
        let ghost before = self.static_subscribers@;
        let mut groups: Vec<EventgroupId> = Vec::new();
        let mut i: usize = 0;
        while i < eventgroups.len()
            invariant
                0 <= i <= eventgroups@.len(),
                groups@ == eventgroups@.take(i as int),
            decreases eventgroups@.len() - i,
        {
            proof {
                crate::rows::lemma_take_step(eventgroups@, i as int);
            }
            groups.push(eventgroups[i]);
            i += 1;
        }
        assert(groups@ =~= eventgroups@);
        proof {
            lemma_distinct_addresses(before);
            crate::table::lemma_map_table(before, group_ids());
            crate::table::lemma_put(
                map_table(before, group_ids()),
                address,
                raw_ids(eventgroups@),
            );
        }
        self.static_subscribers.insert(address, groups);
    }

    /// The request to announce the instance. Its outcome goes to
    /// [`ServiceInstance::announce`].
    pub fn ask_to_announce(&self, response: ChannelId) -> (r: AnnouncementRequest)
        ensures
            r == (AnnouncementRequest::StartAnnouncing {
                service_id: self.service_id,
                instance_id: self.instance_id,
                major_version: self.major_version,
                response,
            }),
    {
        AnnouncementRequest::StartAnnouncing {
            service_id: self.service_id,
            instance_id: self.instance_id,
            major_version: self.major_version,
            response,
        }
    }

    /// The instance once its announcement was accepted, or why it was not.
    pub fn announce(self, outcome: Result<(), Error>) -> (r: Result<
        ServiceInstance<Announced>,
        Error,
    >)
        ensures
            match outcome {
                Ok(_) => r matches Ok(i) && i@ == self@,
                Err(e) => r matches Err(f) && f == e,
            },
    {
        match outcome {
            Ok(_) => Ok(
                ServiceInstance {
                    service_id: self.service_id,
                    instance_id: self.instance_id,
                    major_version: self.major_version,
                    static_subscribers: self.static_subscribers,
                    state: PhantomData,
                },
            ),
            Err(e) => Err(e),
        }
    }
}

impl ServiceInstance<Announced> {
    /// The request to withdraw the announcement. Its outcome goes to
    /// [`ServiceInstance::stop_announcing`].
    pub fn ask_to_stop_announcing(&self, response: ChannelId) -> (r: AnnouncementRequest)
        ensures
            r == (AnnouncementRequest::StopAnnouncing {
                service_id: self.service_id,
                instance_id: self.instance_id,
                major_version: self.major_version,
                response,
            }),
    {
        AnnouncementRequest::StopAnnouncing {
            service_id: self.service_id,
            instance_id: self.instance_id,
            major_version: self.major_version,
            response,
        }
    }

    /// The instance once its announcement was withdrawn, or why it was not.
    pub fn stop_announcing(self, outcome: Result<(), Error>) -> (r: Result<
        ServiceInstance<Bound>,
        Error,
    >)
        ensures
            match outcome {
                Ok(_) => r matches Ok(i) && i@ == self@,
                Err(e) => r matches Err(f) && f == e,
            },
    {
        match outcome {
            Ok(_) => Ok(
                ServiceInstance {
                    service_id: self.service_id,
                    instance_id: self.instance_id,
                    major_version: self.major_version,
                    static_subscribers: self.static_subscribers,
                    state: PhantomData,
                },
            ),
            Err(e) => Err(e),
        }
    }

    /// The question whether an eventgroup has subscribers that have subscribed. Its answer goes
    /// to [`ServiceInstance::has_subscribers`].
    pub fn ask_for_subscribers(&self, eventgroup: EventgroupId, response: ChannelId) -> (r: Command)
        ensures
            r == (Command::HasSubscribers {
                service_id: self.service_id,
                instance_id: self.instance_id,
                major_version: self.major_version,
                eventgroup_id: eventgroup@,
                response,
            }),
    {
        Command::HasSubscribers {
            service_id: self.service_id,
            instance_id: self.instance_id,
            major_version: self.major_version,
            eventgroup_id: eventgroup.value(),
            response,
        }
    }

    /// Whether an eventgroup has subscribers, with or without subscription. The runtime answers
    /// for the former; without an answer there are none.
    pub fn has_subscribers(&self, eventgroup: EventgroupId, answer: Option<bool>) -> (r: bool)
        ensures
            r == (answer == Some(true) || exists|i: int|
                0 <= i < self@.static_subscribers.len() && (
                #[trigger] self@.static_subscribers[i]).1.contains(eventgroup@)),
    {
        let targets = self.targets(eventgroup);
        proof {
            lemma_targets_exist(
                self@.static_subscribers,
                eventgroup@,
                self@.static_subscribers.len() as int,
            );
        }
        if targets.len() > 0 {
            return true;
        }
        match answer {
            Some(b) => b,
            None => false,
        }
    }

    /// The commands that send an event to all subscribers of an eventgroup: to those that have
    /// subscribed, and to those without subscription where there are any.
    pub fn notify(&self, eventgroup: EventgroupId, event_id: EventId, payload: &[u8]) -> (r: (
        Command,
        Option<Command>,
    ))
        ensures
            r.0 matches Command::Notify {
                service_id,
                instance_id,
                major_version,
                eventgroup_ids,
                event_id: event,
                payload: data,
            } && service_id == self.service_id && instance_id == self.instance_id
                && major_version == self.major_version && eventgroup_ids@ == seq![eventgroup@]
                && event == event_id@ && content(data) == payload@,
            self@.notifies_static(eventgroup@, event_id@, payload@, r.1),
    {
        let eventgroup_ids: Vec<u16> = vec![eventgroup.value()];
        assert(eventgroup_ids@ =~= seq![eventgroup@]);
        let subscribed = Command::Notify {
            service_id: self.service_id,
            instance_id: self.instance_id,
            major_version: self.major_version,
            eventgroup_ids,
            event_id: event_id.value(),
            payload: copy_from_slice(payload),
        };
        (subscribed, self.notify_static(eventgroup, event_id, payload))
    }
}

} // verus!
