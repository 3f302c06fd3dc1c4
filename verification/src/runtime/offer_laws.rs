//! What holds of offers: from the command that makes one to the hosts that hear of it, again and
//! again until it is withdrawn.

use crate::config::OfferConfig;
use crate::error::ErrorView;
use crate::ids::{InstanceId, ServiceId};
use crate::message::{ChannelId, DeliveryView};
use crate::net::SocketAddr;
use crate::runtime::action::{ActionView, RpcTransportSender};
use crate::runtime::command::Command;
use crate::runtime::event_loop::{carried_out, reaction, LoopEvent, LoopView};
use crate::runtime::execute::{EffectView, PendingOffer};
use crate::runtime::incoming::shows_reboot;
use crate::runtime::reader_laws::a_withdrawal_is_believed;
use crate::runtime::reading::{
    discovery_group, lemma_one_executed, lemma_plain_command, lemma_read, message_in, session_in,
};
use crate::runtime::sd::{single_entry, stop_offer_entry};
use crate::runtime::server::{after_stop_offer_command, SocketOutcome};
use crate::runtime::state::{ClientSubscription, ServiceKey, StateView};
use crate::table::{has_key, lemma_put, lemma_without, lookup};
use vstd::prelude::*;

verus! {

/// The key of a service instance.
pub open spec fn instance_key(
    service_id: ServiceId,
    instance_id: InstanceId,
    major_version: u8,
) -> ServiceKey {
    ServiceKey {
        service_id: service_id@,
        instance_id: match instance_id {
            InstanceId::Any => 0xFFFF,
            InstanceId::Id(id) => id,
        },
        major_version,
    }
}

/// Where a transport of an offer is opened: at the port that it names, or else at the one behind
/// the discovery port, two further for each service that is offered already.
pub open spec fn place(s: StateView, port: Option<u16>) -> Option<SocketAddr> {
    match port {
        None => None,
        Some(p) => Some(
            SocketAddr {
                ip: s.local_endpoint.ip,
                port: if p != 0 {
                    p
                } else {
                    (s.local_endpoint.port + 1 + 2 * s.offered.len()) as u16
                },
            },
        ),
    }
}

/// An offer first asks for the sockets of exactly its transports; until they are there, nothing
/// changes.
pub proof fn an_offer_opens_its_sockets(
    l: LoopView,
    service_id: ServiceId,
    instance_id: InstanceId,
    major_version: u8,
    minor_version: u32,
    offer_config: OfferConfig,
    requests: ChannelId,
    response: ChannelId,
    now: u64,
    reply: ChannelId,
)
    requires
        !has_key(l.state.offered, instance_key(service_id, instance_id, major_version)),
        l.state.local_endpoint.port + 1 + 2 * l.state.offered.len() <= 0xFFFF,
    ensures
        ({
            let command = Command::Offer {
                service_id,
                instance_id,
                major_version,
                minor_version,
                offer_config,
                requests,
                response,
            };
            reaction(l, LoopEvent::Command { command }, now, reply) == (
                l,
                seq![
                    EffectView::OpenSockets {
                        udp: place(l.state, offer_config.udp_port),
                        tcp: place(l.state, offer_config.tcp_port),
                        offer: PendingOffer {
                            service_id,
                            instance_id,
                            major_version,
                            minor_version,
                            method_config: offer_config.method_config,
                            requests,
                            response,
                        },
                    },
                ],
            )
        }),
{
}

/// The endpoint of a socket that was opened.
pub open spec fn opened_at(socket: SocketOutcome) -> Option<SocketAddr> {
    match socket {
        Some(Ok(opened)) => Some(opened.endpoint),
        _ => None,
    }
}

/// Once its sockets are open, a service is offered and announced at their endpoints, and answers
/// through them; its handle hears so, and its first offer is held back: at most for 50 ms, and
/// for the next cycle where that is due within another 150 ms.
pub proof fn open_sockets_make_an_offer(
    l: LoopView,
    offer: PendingOffer,
    udp: SocketOutcome,
    tcp: SocketOutcome,
    now: u64,
    reply: ChannelId,
    other: ServiceKey,
)
    requires
        l.wf(),
        !has_key(
            l.state.offered,
            instance_key(offer.service_id, offer.instance_id, offer.major_version),
        ),
        !(udp matches Some(Err(_))),
        !(tcp matches Some(Err(_))),
        udp is Some || tcp is Some,
    ensures
        ({
            let event = LoopEvent::SocketsOpened { offer, udp, tcp };
            let (after, effects) = reaction(l, event, now, reply);
            let s = l.state;
            let t = after.state;
            let key = instance_key(offer.service_id, offer.instance_id, offer.major_version);
            let made = lookup(t.offered, key)->0;
            &&& effects == seq![
                EffectView::Deliver {
                    to: offer.response,
                    message: DeliveryView::Offered(Ok(offer.requests)),
                },
            ]
            &&& lookup(t.offered, key) is Some
            &&& made.is_announcing
            &&& made.requests_tx == offer.requests
            &&& (made.major_version, made.minor_version) == (
                offer.major_version,
                offer.minor_version,
            )
            &&& made.method_config == offer.method_config
            &&& made.last_offer == now
            &&& made.udp_endpoint == opened_at(udp)
            &&& made.tcp_endpoint == opened_at(tcp)
            &&& made.udp_transport == (match udp {
                Some(Ok(opened)) => Some(RpcTransportSender::Udp(opened.sender)),
                _ => None,
            })
            &&& made.tcp_transport == (match tcp {
                Some(Ok(opened)) => Some(RpcTransportSender::Tcp(opened.sender)),
                _ => None,
            })
            &&& other != key ==> lookup(t.offered, other) == lookup(s.offered, other)
            &&& t.pending_initial_offers == s.pending_initial_offers.push(key)
            &&& match (s.pending_offers_deadline, s.last_periodic_cycle) {
                (Some(at), _) => t.pending_offers_deadline == Some(at),
                (None, Some(cycle)) => {
                    let next = cycle + s.config.cyclic_offer_delay * 1_000_000;
                    t.pending_offers_deadline == (if now + 200_000_000 < next {
                        Some((now + 50_000_000) as u128)
                    } else {
                        None
                    })
                },
                (None, None) => t.pending_offers_deadline is None,
            }
            &&& t == (StateView {
                offered: t.offered,
                pending_initial_offers: t.pending_initial_offers,
                pending_offers_deadline: t.pending_offers_deadline,
                ..s
            })
        }),
{
    let s = l.state;
    let key = instance_key(offer.service_id, offer.instance_id, offer.major_version);
    let made = crate::runtime::server::new_offer(
        offer.major_version,
        offer.minor_version,
        offer.method_config,
        offer.requests,
        udp,
        tcp,
        now,
    );
    lemma_put(s.offered, key, made);
    lemma_sockets(l, offer, udp, tcp, now, reply);
    let t = crate::runtime::server::after_offer_command(s, key, made, now);
    lemma_one_executed(
        t,
        ActionView::Deliver {
            to: offer.response,
            message: DeliveryView::Offered(Ok(offer.requests)),
        },
    );
}

proof fn lemma_sockets(
    l: LoopView,
    offer: PendingOffer,
    udp: SocketOutcome,
    tcp: SocketOutcome,
    now: u64,
    reply: ChannelId,
)
    ensures
        reaction(l, LoopEvent::SocketsOpened { offer, udp, tcp }, now, reply) == l.with(
            carried_out(
                crate::runtime::event_loop::sockets_handled(l.state, offer, udp, tcp, now),
            ),
        ),
{
}

/// Where a socket of an offer cannot be opened, its handle hears why, of UDP before TCP, and
/// nothing changes; an offer without a transport is refused as well.
pub proof fn an_offer_without_sockets_fails(
    l: LoopView,
    offer: PendingOffer,
    udp: SocketOutcome,
    tcp: SocketOutcome,
    now: u64,
    reply: ChannelId,
)
    requires
        !has_key(
            l.state.offered,
            instance_key(offer.service_id, offer.instance_id, offer.major_version),
        ),
        udp matches Some(Err(_)) || tcp matches Some(Err(_)) || (udp is None && tcp is None),
    ensures
        reaction(l, LoopEvent::SocketsOpened { offer, udp, tcp }, now, reply) == (
            l,
            seq![
                EffectView::Deliver {
                    to: offer.response,
                    message: DeliveryView::Offered(
                        Err(
                            match (udp, tcp) {
                                (Some(Err(e)), _) => ErrorView::Io(e.kind, e.message@),
                                (_, Some(Err(e))) => ErrorView::Io(e.kind, e.message@),
                                _ => ErrorView::Config("No transport configured"@),
                            },
                        ),
                    ),
                },
            ],
        ),
{
    let s = l.state;
    lemma_sockets(l, offer, udp, tcp, now, reply);
    let key = instance_key(offer.service_id, offer.instance_id, offer.major_version);
    let refusal = crate::runtime::server::offer_refusal(s, key, udp, tcp)->0;
    lemma_one_executed(
        s,
        ActionView::Deliver { to: offer.response, message: DeliveryView::Offered(Err(refusal)) },
    );
}

proof fn lemma_stop_reaction(
    l: LoopView,
    service_id: ServiceId,
    instance_id: InstanceId,
    major_version: u8,
    now: u64,
    reply: ChannelId,
)
    requires
        has_key(l.state.offered, instance_key(service_id, instance_id, major_version)),
    ensures
        ({
            let command = Command::StopOffer { service_id, instance_id, major_version };
            let key = instance_key(service_id, instance_id, major_version);
            let s = l.state;
            let m = single_entry(
                s.flags(false),
                stop_offer_entry(key, lookup(s.offered, key)->0),
            );
            reaction(l, LoopEvent::Command { command }, now, reply) == (
                LoopView {
                    state: after_stop_offer_command(s, key).multicast_session_used(),
                    ..l
                },
                seq![
                    EffectView::SendSd {
                        data: m.bytes(s.multicast_session_id),
                        target: discovery_group(s),
                    },
                ],
            )
        }),
{
    let s = l.state;
    let command = Command::StopOffer { service_id, instance_id, major_version };
    let key = instance_key(service_id, instance_id, major_version);
    lemma_plain_command(l, command, now, reply);
    let m = single_entry(s.flags(false), stop_offer_entry(key, lookup(s.offered, key)->0));
    let t = after_stop_offer_command(s, key);
    lemma_one_executed(t, ActionView::SendSd { message: m, target: discovery_group(s) });
    crate::runtime::state::flag_laws(s, false);
}

/// An offer that is withdrawn is withdrawn from the group: one message with one entry, which
/// names the service, instance and version of the offer and no lifetime. The service is then
/// neither offered nor has it registered events; nothing else changes.
pub proof fn a_withdrawn_offer_is_announced(
    l: LoopView,
    service_id: ServiceId,
    instance_id: InstanceId,
    major_version: u8,
    now: u64,
    reply: ChannelId,
    other: ServiceKey,
    event_id: u16,
)
    requires
        l.wf(),
        lookup(
            l.state.offered,
            instance_key(service_id, instance_id, major_version),
        ) matches Some(o) && o.major_version == major_version,
    ensures
        ({
            let command = Command::StopOffer { service_id, instance_id, major_version };
            let (after, effects) = reaction(l, LoopEvent::Command { command }, now, reply);
            let key = instance_key(service_id, instance_id, major_version);
            let t = after.state;
            let data = effects[0]->SendSd_data;
            let m = message_in(data)->0;
            &&& effects.len() == 1
            &&& effects[0] == (EffectView::SendSd { data, target: discovery_group(l.state) })
            &&& message_in(data) is Some
            &&& m.entries.len() == 1
            &&& m.entries[0].entry_type is OfferService
            &&& m.entries[0].ttl == 0
            &&& m.entries[0].service_id == key.service_id
            &&& m.entries[0].instance_id == key.instance_id
            &&& m.entries[0].major_version == key.major_version
            &&& !has_key(t.offered, key)
            &&& other != key ==> lookup(t.offered, other) == lookup(l.state.offered, other)
            &&& t.registered_events.contains((other, event_id)) <==> other != key
                && l.state.registered_events.contains((other, event_id))
            &&& t == (StateView {
                offered: t.offered,
                registered_events: t.registered_events,
                multicast_session_id: t.multicast_session_id,
                multicast_has_wrapped_once: t.multicast_has_wrapped_once,
                ..l.state
            })
        }),
{
    let s = l.state;
    let key = instance_key(service_id, instance_id, major_version);
    let offered = lookup(s.offered, key)->0;
    lemma_stop_reaction(l, service_id, instance_id, major_version, now, reply);
    lemma_without(s.offered, key);
    let m = single_entry(s.flags(false), stop_offer_entry(key, offered));
    crate::discovery::sd_payload_size(m);
    lemma_read(m, s.multicast_session_id);
    crate::rows::lemma_filter_contains(
        s.registered_events,
        crate::runtime::server::of_other_service(key),
        (other, event_id),
    );
}

/// A withdrawn service is forgotten: a host that reads what its withdrawal sends no longer knows
/// the service and, where it knew it, has no subscription to it.
pub proof fn a_withdrawn_service_is_forgotten(
    server: LoopView,
    service_id: ServiceId,
    instance_id: InstanceId,
    major_version: u8,
    now: u64,
    reply: ChannelId,
    data: Vec<u8>,
    client: LoopView,
    from: SocketAddr,
    later: u64,
)
    requires
        server.wf(),
        client.wf(),
        lookup(
            server.state.offered,
            instance_key(service_id, instance_id, major_version),
        ) matches Some(o) && o.major_version == major_version,
        data@ == reaction(
            server,
            LoopEvent::Command {
                command: Command::StopOffer { service_id, instance_id, major_version },
            },
            now,
            reply,
        ).1[0]->SendSd_data,
        !shows_reboot(client.state, from.ip, message_in(data@)->0.flags, session_in(data@)),
    ensures
        ({
            let key = instance_key(service_id, instance_id, major_version);
            let (after, _) = reaction(client, LoopEvent::SdPacket { data, from }, later, reply);
            let subs = after.state.subscriptions;
            &&& !has_key(after.state.discovered, key)
            &&& has_key(client.state.discovered, key) ==> forall|i: int|
                0 <= i < subs.len() ==> (#[trigger] subs[i]).service != key
        }),
{
    let key = instance_key(service_id, instance_id, major_version);
    a_withdrawn_offer_is_announced(
        server,
        service_id,
        instance_id,
        major_version,
        now,
        reply,
        key,
        0,
    );
    let m = message_in(data@)->0;
    a_withdrawal_is_believed(client, data, m, from, later, reply, key);
    let (after, _) = reaction(client, LoopEvent::SdPacket { data, from }, later, reply);
    let subs = after.state.subscriptions;
    if has_key(client.state.discovered, key) {
        let p = |c: ClientSubscription| c.service != key;
        assert forall|i: int| 0 <= i < subs.len() implies (#[trigger] subs[i]).service != key by {
            assert(subs.contains(subs[i]));
            crate::rows::lemma_filter_contains(client.state.subscriptions, p, subs[i]);
        }
    }
}

} // verus!
