//! What holds of searches: what a host asks the group for, what other hosts answer, and what the
//! searching host makes of the answer.

use crate::config::Transport;
use crate::ids::{InstanceId, MajorVersion, ServiceId};
use crate::message::{ChannelId, DeliveryView, ServiceAvailability};
use crate::net::SocketAddr;
use crate::runtime::action::ActionView;
use crate::runtime::client::{first_match, known_availability};
use crate::runtime::command::Command;
use crate::runtime::event_loop::{reaction, LoopEvent, LoopView};
use crate::runtime::execute::EffectView;
use crate::runtime::incoming::shows_reboot;
use crate::runtime::reader_laws::{
    a_search_is_answered, an_offer_is_believed, asked_for, lifetime_end, offers_one, used_at,
};
use crate::runtime::reading::{
    discovery_group, lemma_one_executed, lemma_plain_command, lemma_read, meant_by, message_in,
    named_at, seen_from, session_in,
};
use crate::runtime::sd::find_message;
use crate::runtime::state::{DiscoveredService, FindRequest, OfferedService, ServiceKey, StateView};
use crate::table::{has_key, lemma_put, lemma_without, lookup, put};
use vstd::prelude::*;

verus! {

/// The service that a search asks for.
pub open spec fn searched(
    service_id: ServiceId,
    instance_id: InstanceId,
    major_version: MajorVersion,
) -> ServiceKey {
    ServiceKey {
        service_id: service_id@,
        instance_id: match instance_id {
            InstanceId::Any => 0xFFFF,
            InstanceId::Id(id) => id,
        },
        major_version: match major_version {
            MajorVersion::Any => 0xFF,
            MajorVersion::Exact(v) => v,
        },
    }
}

proof fn lemma_no_match(
    discovered: Seq<(ServiceKey, DiscoveredService)>,
    key: ServiceKey,
    i: int,
)
    requires
        0 <= i <= discovered.len(),
        forall|j: int| i <= j < discovered.len() ==> !meant_by((#[trigger] discovered[j]).0, key),
    ensures
        first_match(discovered, key, i) is None,
    decreases discovered.len() - i,
{
    if i < discovered.len() {
        assert(!meant_by(discovered[i].0, key));
        lemma_no_match(discovered, key, i + 1);
    }
}

proof fn lemma_match_at(
    discovered: Seq<(ServiceKey, DiscoveredService)>,
    key: ServiceKey,
    i: int,
    k: int,
)
    requires
        0 <= i <= k < discovered.len(),
        meant_by(discovered[k].0, key),
        forall|j: int| i <= j < k ==> !meant_by((#[trigger] discovered[j]).0, key),
    ensures
        first_match(discovered, key, i) == Some(discovered[k]),
    decreases k - i,
{
    if i < k {
        assert(!meant_by(discovered[i].0, key));
        lemma_match_at(discovered, key, i + 1, k);
    }
}

/// Where no known service is meant, a search asks the group: one message, with one entry that
/// searches exactly the service, instance and version, in any minor version. The search is then
/// under way, with three repetitions left, and nothing else has changed.
pub proof fn a_search_asks_the_group(
    l: LoopView,
    service_id: ServiceId,
    instance_id: InstanceId,
    major_version: MajorVersion,
    notify: ChannelId,
    now: u64,
    reply: ChannelId,
    other: ServiceKey,
)
    requires
        l.wf(),
        l.state.config.find_ttl <= 0xFF_FFFF,
        forall|j: int|
            0 <= j < l.state.discovered.len() ==> !meant_by(
                (#[trigger] l.state.discovered[j]).0,
                searched(service_id, instance_id, major_version),
            ),
    ensures
        ({
            let command = Command::Find { service_id, instance_id, major_version, notify };
            let (after, effects) = reaction(l, LoopEvent::Command { command }, now, reply);
            let key = searched(service_id, instance_id, major_version);
            let data = effects[0]->SendSd_data;
            let m = message_in(data)->0;
            &&& effects.len() == 1
            &&& effects[0] == (EffectView::SendSd { data, target: discovery_group(l.state) })
            &&& message_in(data) is Some
            &&& session_in(data) == l.state.multicast_session_id
            &&& m.flags & 0x40 == 0
            &&& m.entries.len() == 1
            &&& m.options.len() == 0
            &&& m.entries[0].entry_type is FindService
            &&& m.entries[0].service_id == key.service_id
            &&& m.entries[0].instance_id == key.instance_id
            &&& m.entries[0].major_version == key.major_version
            &&& m.entries[0].minor_version == 0xFFFF_FFFF
            &&& m.entries[0].ttl == l.state.config.find_ttl
            &&& lookup(after.state.find_requests, key) == Some(
                FindRequest { notify, repetitions_left: 3, last_find: now },
            )
            &&& other != key ==> lookup(after.state.find_requests, other) == lookup(
                l.state.find_requests,
                other,
            )
            &&& after.state == (StateView {
                find_requests: after.state.find_requests,
                multicast_session_id: after.state.multicast_session_id,
                multicast_has_wrapped_once: after.state.multicast_has_wrapped_once,
                ..l.state
            })
        }),
{
    let s = l.state;
    let command = Command::Find { service_id, instance_id, major_version, notify };
    let key = searched(service_id, instance_id, major_version);
    lemma_no_match(s.discovered, key, 0);
    assert(known_availability(s, key) is None);
    lemma_plain_command(l, command, now, reply);
    let m = find_message(key, s.flags(false), s.config.find_ttl);
    crate::discovery::sd_payload_size(m);
    lemma_read(m, s.multicast_session_id);
    crate::runtime::state::flag_laws(s, false);
    let request = FindRequest { notify, repetitions_left: 3, last_find: now };
    lemma_put(s.find_requests, key, request);
    let t = StateView { find_requests: put(s.find_requests, key, request), ..s };
    lemma_one_executed(t, ActionView::SendSd { message: m, target: discovery_group(s) });
}

/// A search by which a known service is meant is answered by it at once: the first such service
/// is reported to the handle with its identifiers, and at the endpoint of the preferred transport
/// or else of its only one. Nothing is sent and nothing changes.
pub proof fn a_known_service_answers_at_once(
    l: LoopView,
    service_id: ServiceId,
    instance_id: InstanceId,
    major_version: MajorVersion,
    notify: ChannelId,
    now: u64,
    reply: ChannelId,
    k: int,
)
    requires
        l.wf(),
        0 <= k < l.state.discovered.len(),
        meant_by(l.state.discovered[k].0, searched(service_id, instance_id, major_version)),
        l.state.discovered[k].1.udp_endpoint is Some || l.state.discovered[k].1.tcp_endpoint is Some,
        forall|j: int|
            0 <= j < k ==> !meant_by(
                (#[trigger] l.state.discovered[j]).0,
                searched(service_id, instance_id, major_version),
            ),
    ensures
        ({
            let command = Command::Find { service_id, instance_id, major_version, notify };
            let (after, effects) = reaction(l, LoopEvent::Command { command }, now, reply);
            let (key, known) = l.state.discovered[k];
            &&& after == l
            &&& effects.len() == 1
            &&& exists|endpoint: SocketAddr, transport: Transport|
                {
                    &&& #[trigger] used_at(
                        known.udp_endpoint,
                        known.tcp_endpoint,
                        l.state.config.preferred(),
                        endpoint,
                        transport,
                    )
                    &&& effects[0] == (EffectView::Deliver {
                        to: notify,
                        message: DeliveryView::Availability(
                            ServiceAvailability::Available {
                                endpoint,
                                transport,
                                instance_id: key.instance_id,
                                major_version: key.major_version,
                            },
                        ),
                    })
                }
        }),
{
    let s = l.state;
    let command = Command::Find { service_id, instance_id, major_version, notify };
    let key = searched(service_id, instance_id, major_version);
    lemma_match_at(s.discovered, key, 0, k);
    lemma_plain_command(l, command, now, reply);
    let (found, known) = s.discovered[k];
    let (endpoint, transport) = known.endpoint(s.config.preferred() == Transport::Tcp)->0;
    assert(used_at(
        known.udp_endpoint,
        known.tcp_endpoint,
        s.config.preferred(),
        endpoint,
        transport,
    ));
    let availability = ServiceAvailability::Available {
        endpoint,
        transport,
        instance_id: found.instance_id,
        major_version: found.major_version,
    };
    assert(known_availability(s, key) == Some(availability));
    lemma_one_executed(
        s,
        ActionView::Deliver { to: notify, message: DeliveryView::Availability(availability) },
    );
}

/// A search that is given up is no longer under way; other searches are, and nothing else
/// happens.
pub proof fn a_search_is_given_up(
    l: LoopView,
    service_id: ServiceId,
    instance_id: InstanceId,
    major_version: MajorVersion,
    now: u64,
    reply: ChannelId,
    other: ServiceKey,
)
    requires
        l.wf(),
    ensures
        ({
            let command = Command::StopFind { service_id, instance_id, major_version };
            let (after, effects) = reaction(l, LoopEvent::Command { command }, now, reply);
            let key = searched(service_id, instance_id, major_version);
            &&& effects.len() == 0
            &&& !has_key(after.state.find_requests, key)
            &&& other != key ==> lookup(after.state.find_requests, other) == lookup(
                l.state.find_requests,
                other,
            )
            &&& after.state == (StateView {
                find_requests: after.state.find_requests,
                ..l.state
            })
        }),
{
    let s = l.state;
    let command = Command::StopFind { service_id, instance_id, major_version };
    let key = searched(service_id, instance_id, major_version);
    lemma_plain_command(l, command, now, reply);
    lemma_without(s.find_requests, key);
    let t = StateView { find_requests: crate::table::without(s.find_requests, key), ..s };
    lemma_one_executed(t, ActionView::Deliver { to: 0, message: DeliveryView::HasSubscribers(true) });
}

/// A search finds a service that another host offers: the message that the search sends, read by
/// that host, queues an answer to the searching host, and that answer, read by the searching
/// host, makes the service known there, at the endpoints at which it is offered.
pub proof fn a_search_finds_an_offered_service(
    client: LoopView,
    service_id: ServiceId,
    instance_id: InstanceId,
    major_version: MajorVersion,
    notify: ChannelId,
    now: u64,
    reply: ChannelId,
    question: Vec<u8>,
    asker: SocketAddr,
    server: LoopView,
    i: int,
    later: u64,
    session: u16,
    answer: Vec<u8>,
    host: SocketAddr,
    waiting: LoopView,
    last: u64,
)
    requires
        client.wf(),
        server.wf(),
        waiting.wf(),
        client.state.config.find_ttl <= 0xFF_FFFF,
        0 < server.state.config.offer_ttl <= 0xFF_FFFF,
        forall|j: int|
            0 <= j < client.state.discovered.len() ==> !meant_by(
                (#[trigger] client.state.discovered[j]).0,
                searched(service_id, instance_id, major_version),
            ),
        question@ == reaction(
            client,
            LoopEvent::Command {
                command: Command::Find { service_id, instance_id, major_version, notify },
            },
            now,
            reply,
        ).1[0]->SendSd_data,
        !shows_reboot(
            server.state,
            asker.ip,
            message_in(question@)->0.flags,
            session_in(question@),
        ),
        0 <= i < server.state.offered.len(),
        server.state.offered[i].1.is_announcing,
        server.state.offered[i].0.service_id == service_id@,
        instance_id is Any || instance_id == InstanceId::Id(server.state.offered[i].0.instance_id),
        server.state.offered[i].1.major_version == server.state.offered[i].0.major_version,
        server.state.offered[i].1.udp_endpoint is Some || server.state.offered[i].1.tcp_endpoint is Some,
    ensures
        ({
            let (asked, _) = reaction(
                server,
                LoopEvent::SdPacket { data: question, from: asker },
                later,
                reply,
            );
            let queue = asked.state.pending_unicast_sd;
            let (key, offered) = server.state.offered[i];
            let config = server.state.config;
            exists|k: int|
                {
                    &&& server.state.pending_unicast_sd.len() <= k < queue.len()
                    &&& offers_one(
                        #[trigger] queue[k],
                        asker,
                        key,
                        offered,
                        config.offer_ttl,
                        config.advertised_ip,
                    )
                    &&& answer@ == queue[k]->SendSd_message.bytes(session) && !shows_reboot(
                        waiting.state,
                        host.ip,
                        queue[k]->SendSd_message.flags,
                        session_in(answer@),
                    ) ==> lookup(
                        reaction(
                            waiting,
                            LoopEvent::SdPacket { data: answer, from: host },
                            last,
                            reply,
                        ).0.state.discovered,
                        key,
                    ) == Some(
                        DiscoveredService {
                            udp_endpoint: seen_from(
                                named_at(offered.udp_endpoint, config.advertised_ip),
                                host,
                            ),
                            tcp_endpoint: seen_from(
                                named_at(offered.tcp_endpoint, config.advertised_ip),
                                host,
                            ),
                            sd_endpoint: host,
                            minor_version: offered.minor_version,
                            ttl: config.offer_ttl,
                            ttl_expires: lifetime_end(config.offer_ttl, last),
                        },
                    )
                }
        }),
{
    let key = searched(service_id, instance_id, major_version);
    a_search_asks_the_group(
        client,
        service_id,
        instance_id,
        major_version,
        notify,
        now,
        reply,
        key,
    );
    let m = message_in(question@)->0;
    let e = m.entries[0];
    a_search_is_answered(server, question, m, asker, later, reply);
    let s = server.state;
    let p = |x: (ServiceKey, OfferedService)|
        x.1.is_announcing && x.0.service_id == e.service_id && (e.instance_id == 0xFFFF
            || x.0.instance_id == e.instance_id);
    assert(s.offered.contains(s.offered[i]));
    crate::rows::lemma_filter_contains(s.offered, p, s.offered[i]);
    let chosen = asked_for(s, e);
    assert(chosen == s.offered.filter(p));
    let j = choose|j: int| 0 <= j < chosen.len() && chosen[j] == s.offered[i];
    let (asked, _) = reaction(
        server,
        LoopEvent::SdPacket { data: question, from: asker },
        later,
        reply,
    );
    let queue = asked.state.pending_unicast_sd;
    let k = s.pending_unicast_sd.len() + j;
    let a = queue[k];
    let told = a->SendSd_message;
    assert(message_in(told.bytes(session)) == Some(told));
    if answer@ == told.bytes(session) && !shows_reboot(
        waiting.state,
        host.ip,
        told.flags,
        session_in(answer@),
    ) {
        an_offer_is_believed(waiting, answer, told, host, last, reply, key);
    }
    assert(queue[k] == a);
}

} // verus!
