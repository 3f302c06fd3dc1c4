//! Subscriptions to eventgroups.

use crate::config::{
    OfferedEndpoints, PortSpec, Transport, TransportPolicy, TransportPreference,
    TransportSelection,
};
use crate::error::Error;
use crate::handles::event::raw_ids;
use crate::ids::{EventgroupId, InstanceId, ServiceId};
use crate::message::ChannelId;
use crate::net::SocketAddr;
use crate::nonempty::{append, elements, into_vec, one};
use crate::runtime::command::Command;
use vstd::prelude::*;

verus! {

/// A subscription in the making, to at least one eventgroup.
pub struct SubscriptionBuilder {
    /// The service.
    pub service_id: ServiceId,
    /// The instance.
    pub instance_id: InstanceId,
    /// The major version.
    pub major_version: u8,
    /// The raw identifiers of the eventgroups.
    pub eventgroups: vec1::Vec1<u16>,
    /// The transports to try.
    pub transport_policy: TransportPolicy,
    /// Where the service runs.
    pub remote_endpoints: OfferedEndpoints,
}

/// All are identifiers of eventgroups.
pub open spec fn are_eventgroups(ids: Seq<u16>) -> bool {
    forall|i: int| 0 <= i < ids.len() ==> EventgroupId::allowed(#[trigger] ids[i])
}

impl SubscriptionBuilder {
    /// There are eventgroups, and no identifier is reserved.
    pub open spec fn wf(self) -> bool {
        elements(self.eventgroups).len() > 0 && are_eventgroups(elements(self.eventgroups))
    }

    /// A subscription to one eventgroup.
    pub fn new(
        service_id: ServiceId,
        instance_id: InstanceId,
        major_version: u8,
        first_eventgroup: EventgroupId,
        transport_policy: TransportPolicy,
        remote_endpoints: OfferedEndpoints,
    ) -> (r: Self)
        ensures
            r.service_id == service_id,
            r.instance_id == instance_id,
            r.major_version == major_version,
            elements(r.eventgroups) == seq![first_eventgroup@],
            r.transport_policy == transport_policy,
            r.remote_endpoints == remote_endpoints,
            r.wf(),
    {
        let first: u16 = first_eventgroup.value();
        SubscriptionBuilder {
            service_id,
            instance_id,
            major_version,
            eventgroups: one(first),
            transport_policy,
            remote_endpoints,
        }
    }

    /// Also to another eventgroup, as far as a list of them fits into memory.
    pub fn and(self, eventgroup: EventgroupId) -> (r: Self)
        requires
            self.wf(),
            elements(self.eventgroups).len() <= isize::MAX / 8,
        ensures
            elements(r.eventgroups) == elements(self.eventgroups).push(eventgroup@),
            r.service_id == self.service_id,
            r.instance_id == self.instance_id,
            r.major_version == self.major_version,
            r.transport_policy == self.transport_policy,
            r.remote_endpoints == self.remote_endpoints,
            r.wf(),
    {
        let id: u16 = eventgroup.value();
        let mut eventgroups = self.eventgroups;
        append(&mut eventgroups, id);
        SubscriptionBuilder { eventgroups, ..self }
    }

    /// The attempts to subscribe, none of them made yet.
    pub fn subscribe(self) -> (r: SubscribeAttempts)
        requires
            self.wf(),
        ensures
            r.service_id == self.service_id,
            r.instance_id == self.instance_id,
            r.major_version == self.major_version,
            r.eventgroup_ids@ == elements(self.eventgroups),
            r.transport_policy == self.transport_policy,
            r.remote_endpoints == self.remote_endpoints,
            r.next == 0,
            r.last_conflict is None,
            r.wf(),
    {
        SubscribeAttempts {
            service_id: self.service_id,
            instance_id: self.instance_id,
            major_version: self.major_version,
            eventgroup_ids: into_vec(self.eventgroups),
            transport_policy: self.transport_policy,
            remote_endpoints: self.remote_endpoints,
            next: 0,
            last_conflict: None,
        }
    }
}

/// Wants the preferences whose transport is offered.
pub open spec fn is_offered(endpoints: OfferedEndpoints) -> spec_fn(TransportPreference) -> bool {
    |p: TransportPreference| endpoints.endpoint(p.transport) is Some
}

/// The first preference from position `i` on whose transport is offered.
pub open spec fn next_offered(
    preferences: Seq<TransportPreference>,
    endpoints: OfferedEndpoints,
    i: int,
) -> Option<int>
    decreases preferences.len() - i,
{
    if i < 0 || i >= preferences.len() {
        None
    } else if endpoints.endpoint(preferences[i].transport) is Some {
        Some(i)
    } else {
        next_offered(preferences, endpoints, i + 1)
    }
}

/// The preferences that a subscription tries are exactly those whose transport is offered,
/// in their order: after each of them come the offered ones behind it.
pub proof fn preferences_are_tried_in_order(
    preferences: Seq<TransportPreference>,
    endpoints: OfferedEndpoints,
    i: int,
)
    requires
        0 <= i <= preferences.len(),
    ensures
        preferences.skip(i).filter(is_offered(endpoints)) == (match next_offered(
            preferences,
            endpoints,
            i,
        ) {
            Some(j) => seq![preferences[j]] + preferences.skip(j + 1).filter(
                is_offered(endpoints),
            ),
            None => Seq::empty(),
        }),
        next_offered(preferences, endpoints, i) matches Some(j) ==> i <= j < preferences.len(),
    decreases preferences.len() - i,
{
    let p = is_offered(endpoints);
    reveal(Seq::filter);
    if i < preferences.len() {
        preferences_are_tried_in_order(preferences, endpoints, i + 1);
        let rest = preferences.skip(i + 1);
        assert(preferences.skip(i) =~= seq![preferences[i]] + rest);
        lemma_filter_first(preferences[i], rest, p);
    } else {
        assert(preferences.skip(i) =~= Seq::<TransportPreference>::empty());
        assert(preferences.skip(i).filter(p) =~= Seq::<TransportPreference>::empty());
    }
}

proof fn lemma_filter_first(
    x: TransportPreference,
    s: Seq<TransportPreference>,
    p: spec_fn(TransportPreference) -> bool,
)
    ensures
        (seq![x] + s).filter(p) == if p(x) {
            seq![x] + s.filter(p)
        } else {
            s.filter(p)
        },
    decreases s.len(),
{
    reveal(Seq::filter);
    let all = seq![x] + s;
    if s.len() == 0 {
        assert(all =~= Seq::<TransportPreference>::empty().push(x));
        crate::rows::lemma_filter_push(Seq::<TransportPreference>::empty(), x, p);
        assert(all.filter(p) =~= if p(x) {
            seq![x] + s.filter(p)
        } else {
            s.filter(p)
        });
    } else {
        let t = s.drop_last();
        lemma_filter_first(x, t, p);
        assert(all =~= (seq![x] + t).push(s.last()));
        crate::rows::lemma_filter_push(seq![x] + t, s.last(), p);
        assert(all.filter(p) =~= if p(x) {
            seq![x] + s.filter(p)
        } else {
            s.filter(p)
        });
    }
}

/// The attempts of a subscription: one per transport preference that the server offers, in
/// order, until one does not fail for a port conflict.
pub struct SubscribeAttempts {
    /// The service.
    pub service_id: ServiceId,
    /// The instance.
    pub instance_id: InstanceId,
    /// The major version.
    pub major_version: u8,
    /// The raw identifiers of the eventgroups.
    pub eventgroup_ids: Vec<u16>,
    /// The transports to try.
    pub transport_policy: TransportPolicy,
    /// Where the service runs.
    pub remote_endpoints: OfferedEndpoints,
    /// The preference to look at next.
    pub next: usize,
    /// The last port conflict.
    pub last_conflict: Option<Error>,
}

/// An attempt to subscribe.
pub struct Attempt {
    /// The command that subscribes.
    pub command: Command,
    /// The transport.
    pub transport: Transport,
    /// The server.
    pub remote_endpoint: SocketAddr,
    /// The local port.
    pub local_port: PortSpec,
}

/// What becomes of a subscription after an attempt.
pub enum AttemptOutcome {
    /// It is made.
    Subscribed(Subscription),
    /// It has failed for good.
    Failed(Error),
    /// The next transport is to be tried.
    Again(SubscribeAttempts),
}

fn eventgroups_of(ids: &Vec<u16>) -> (r: Vec<EventgroupId>)
    requires
        are_eventgroups(ids@),
    ensures
        raw_ids(r@) == ids@,
{
    let mut r: Vec<EventgroupId> = Vec::new();
    let mut i: usize = 0;
    while i < ids.len()
        invariant
            0 <= i <= ids@.len(),
            are_eventgroups(ids@),
            raw_ids(r@) == ids@.take(i as int),
        decreases ids@.len() - i,
    {
        assert(EventgroupId::allowed(ids@[i as int]));
        let ghost before = raw_ids(r@);
        if let Some(group) = EventgroupId::new(ids[i]) {
            r.push(group);
        }
        proof {
            assert(raw_ids(r@) =~= before.push(ids@[i as int]));
            crate::rows::lemma_take_step(ids@, i as int);
        }
        i += 1;
    }
    assert(ids@.take(i as int) =~= ids@);
    r
}

impl SubscribeAttempts {
    /// There are eventgroups, no identifier is reserved, and only port conflicts are
    /// remembered.
    pub open spec fn wf(self) -> bool {
        &&& self.eventgroup_ids@.len() > 0
        &&& are_eventgroups(self.eventgroup_ids@)
        &&& self.next <= self.transport_policy@.len()
        &&& self.last_conflict matches Some(e) ==> e@.port_conflict()
    }

    /// The next attempt: with the next preference whose transport the server offers.
    pub fn next_attempt(&mut self, events: ChannelId, response: ChannelId) -> (r: Option<Attempt>)
        requires
            old(self).wf(),
        ensures
            match next_offered(
                old(self).transport_policy@,
                old(self).remote_endpoints,
                old(self).next as int,
            ) {
                Some(j) => {
                    &&& *final(self) == (SubscribeAttempts {
                        next: (j + 1) as usize,
                        ..*old(self)
                    })
                    &&& r matches Some(a) && a.transport == old(self).transport_policy@[j].transport
                        && a.local_port == old(self).transport_policy@[j].local_port && Some(
                        a.remote_endpoint,
                    ) == old(self).remote_endpoints.endpoint(a.transport) && (
                    a.command matches Command::Subscribe {
                        service_id,
                        instance_id,
                        major_version,
                        eventgroup_ids,
                        events: to,
                        response: outcome,
                        selection,
                    } && service_id == old(self).service_id && instance_id
                        == old(self).instance_id && major_version == old(self).major_version
                        && eventgroup_ids@ == old(self).eventgroup_ids@ && to == events
                        && outcome == response && selection == Some(
                        TransportSelection {
                            remote_endpoint: a.remote_endpoint,
                            transport: a.transport,
                            local_port: a.local_port,
                        },
                    ))
                },
                None => {
                    &&& r is None
                    &&& *final(self) == (SubscribeAttempts {
                        next: old(self).transport_policy@.len() as usize,
                        ..*old(self)
                    })
                },
            },
            final(self).wf(),
    {
        let ghost start = self.next as int;
        let ghost before = *self;
        let count: usize = self.transport_policy.preferences().len();
        let mut i: usize = self.next;
        while i < count
            invariant
                start <= i <= count,
                *self == before,
                count == before.transport_policy@.len(),
                next_offered(before.transport_policy@, before.remote_endpoints, start)
                    == next_offered(before.transport_policy@, before.remote_endpoints, i as int),
                before.wf(),
                start == before.next,
                old(self).wf(),
                *old(self) == before,
            decreases count - i,
        {
            let preference = self.transport_policy.preferences()[i];
            if let Some(remote_endpoint) = self.remote_endpoints.endpoint_for(
                preference.transport,
            ) {
                self.next = i + 1;
                let command = Command::Subscribe {
                    service_id: self.service_id,
                    instance_id: self.instance_id,
                    major_version: self.major_version,
                    eventgroup_ids: crate::rows::copy(&self.eventgroup_ids),
                    events,
                    response,
                    selection: Some(
                        TransportSelection {
                            remote_endpoint,
                            transport: preference.transport,
                            local_port: preference.local_port,
                        },
                    ),
                };
                return Some(
                    Attempt {
                        command,
                        transport: preference.transport,
                        remote_endpoint,
                        local_port: preference.local_port,
                    },
                );
            }
            i += 1;
        }
        self.next = count;
        None
    }

    /// What becomes of the subscription after an attempt: success and any failure but a port
    /// conflict decide.
    pub fn attempted(self, result: Result<u64, Error>) -> (r: AttemptOutcome)
        requires
            self.wf(),
        ensures
            match result {
                Ok(id) => r matches AttemptOutcome::Subscribed(s) && s.service_id
                    == self.service_id && s.instance_id == self.instance_id && s.major_version
                    == self.major_version && raw_ids(s.eventgroups@) == self.eventgroup_ids@
                    && s.id == id,
                Err(e) => if e@.port_conflict() {
                    r == AttemptOutcome::Again(
                        SubscribeAttempts { last_conflict: Some(e), ..self },
                    )
                } else {
                    r == AttemptOutcome::Failed(e)
                },
            },
            r matches AttemptOutcome::Again(a) ==> a.wf(),
    {
        match result {
            Ok(id) => AttemptOutcome::Subscribed(
                Subscription {
                    service_id: self.service_id,
                    instance_id: self.instance_id,
                    major_version: self.major_version,
                    eventgroups: eventgroups_of(&self.eventgroup_ids),
                    id,
                },
            ),
            Err(e) => {
                if e.is_port_conflict() {
                    AttemptOutcome::Again(SubscribeAttempts { last_conflict: Some(e), ..self })
                } else {
                    AttemptOutcome::Failed(e)
                }
            },
        }
    }

    /// Why the subscription failed when no attempt is left: the last port conflict, or that
    /// no transport fits.
    pub fn exhausted(self) -> (r: Error)
        ensures
            r == (match self.last_conflict {
                Some(e) => e,
                None => Error::TransportMismatch,
            }),
    {
        match self.last_conflict {
            Some(e) => e,
            None => Error::TransportMismatch,
        }
    }
}

/// A subscription to eventgroups.
pub struct Subscription {
    /// The service.
    pub service_id: ServiceId,
    /// The instance.
    pub instance_id: InstanceId,
    /// The major version.
    pub major_version: u8,
    /// The eventgroups.
    pub eventgroups: Vec<EventgroupId>,
    /// The subscription.
    pub id: u64,
}

impl Subscription {
    /// The eventgroups.
    pub fn eventgroups(&self) -> (r: &[EventgroupId])
        ensures
            r@ == self.eventgroups@,
    {
        self.eventgroups.as_slice()
    }

    /// The commands that end the subscription when its handle is given up: one per
    /// eventgroup.
    pub fn unsubscribe(&self) -> (r: Vec<Command>)
        ensures
            r@.len() == self.eventgroups@.len(),
            forall|i: int|
                0 <= i < r@.len() ==> #[trigger] r@[i] == (Command::Unsubscribe {
                    service_id: self.service_id,
                    instance_id: self.instance_id,
                    major_version: self.major_version,
                    eventgroup_id: self.eventgroups@[i]@,
                    subscription_id: self.id,
                }),
    {
        let mut r: Vec<Command> = Vec::new();
        let mut i: usize = 0;
        while i < self.eventgroups.len()
            invariant
                0 <= i <= self.eventgroups@.len(),
                r@.len() == i,
                forall|j: int|
                    0 <= j < i ==> #[trigger] r@[j] == (Command::Unsubscribe {
                        service_id: self.service_id,
                        instance_id: self.instance_id,
                        major_version: self.major_version,
                        eventgroup_id: self.eventgroups@[j]@,
                        subscription_id: self.id,
                    }),
            decreases self.eventgroups@.len() - i,
        {
            r.push(
                Command::Unsubscribe {
                    service_id: self.service_id,
                    instance_id: self.instance_id,
                    major_version: self.major_version,
                    eventgroup_id: self.eventgroups[i].value(),
                    subscription_id: self.id,
                },
            );
            i += 1;
        }
        r
    }
}

} // verus!
