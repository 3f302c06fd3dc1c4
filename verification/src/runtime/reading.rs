//! Discovery messages as they are read from the bytes of a datagram, and the words in which the
//! laws speak of them.

use crate::discovery::{
    sd_message_framing, sd_payload_round_trip, L4Protocol, SdEntry, SdMessageView,
};
use crate::message::ChannelId;
use crate::net::{IpAddr, Ipv4Addr, SocketAddr};
use crate::runtime::action::ActionView;
use crate::runtime::cluster::{by_target, clustered, not_sd};
use crate::runtime::command::{command_handled, Command};
use crate::runtime::event_loop::{
    carried_out, command_reaction, reaction, sd_packet_handled, split_message, LoopEvent, LoopView,
};
use crate::runtime::execute::{executed, executed_all, EffectView};
use crate::runtime::incoming::{entries_handled, entry_handled, session_noted, shows_reboot};
use crate::runtime::state::{OfferedService, ServiceKey, StateView};
use crate::table::{distinct, lemma_put, put};
use crate::wire::header_round_trip;
use vstd::prelude::*;

verus! {

/// The discovery message that a datagram holds, if it holds one.
pub open spec fn message_in(data: Seq<u8>) -> Option<SdMessageView> {
    match split_message(data) {
        Some((h, rest)) => if h.service_id == 0xFFFF && h.method_id == 0x8100 {
            SdMessageView::parsed(rest)
        } else {
            None
        },
        None => None,
    }
}

/// The session of a message.
pub open spec fn session_in(data: Seq<u8>) -> u16 {
    let (h, _) = split_message(data)->0;
    h.session_id
}

/// The address of the discovery group.
pub open spec fn discovery_group(s: StateView) -> SocketAddr {
    SocketAddr { ip: IpAddr::V4(s.config.sd_multicast@), port: s.config.sd_port }
}

/// What a message names for an endpoint: its port, at the advertised address where there is
/// one.
pub open spec fn named_at(ep: Option<SocketAddr>, advertised_ip: Option<IpAddr>) -> Option<
    SocketAddr,
> {
    match ep {
        Some(ep) => Some(
            SocketAddr {
                ip: IpAddr::V4(
                    match (advertised_ip, ep.ip) {
                        (Some(IpAddr::V4(ip)), _) => ip,
                        (_, IpAddr::V4(ip)) => ip,
                        _ => Ipv4Addr { a: 127, b: 0, c: 0, d: 1 },
                    },
                ),
                port: ep.port,
            },
        ),
        None => None,
    }
}

/// An endpoint as its reader sees it: `0.0.0.0` stands for the sender.
pub open spec fn seen_from(ep: Option<SocketAddr>, from: SocketAddr) -> Option<SocketAddr> {
    match ep {
        Some(ep) => if ep.ip == IpAddr::V4(Ipv4Addr { a: 0, b: 0, c: 0, d: 0 }) || ep.ip
            == IpAddr::V6(0) {
            Some(SocketAddr { ip: from.ip, port: ep.port })
        } else {
            Some(ep)
        },
        None => None,
    }
}

/// An entry offers a service, for a lifetime and at its endpoints.
pub open spec fn entry_offers(
    m: SdMessageView,
    e: SdEntry,
    key: ServiceKey,
    offered: OfferedService,
    ttl: u32,
    advertised_ip: Option<IpAddr>,
) -> bool {
    &&& e.entry_type is OfferService
    &&& e.service_id == key.service_id
    &&& e.instance_id == key.instance_id
    &&& e.major_version == offered.major_version
    &&& e.minor_version == offered.minor_version
    &&& e.ttl == ttl
    &&& m.endpoint_of(e, L4Protocol::Udp) == named_at(offered.udp_endpoint, advertised_ip)
    &&& m.endpoint_of(e, L4Protocol::Tcp) == named_at(offered.tcp_endpoint, advertised_ip)
}

/// A service is meant by a search: the same service, and the same instance and version unless
/// either side leaves them open.
pub open spec fn meant_by(key: ServiceKey, searched: ServiceKey) -> bool {
    &&& key.service_id == searched.service_id
    &&& key.instance_id == searched.instance_id || key.instance_id == 0xFFFF
        || searched.instance_id == 0xFFFF
    &&& key.major_version == searched.major_version || key.major_version == 0xFF
        || searched.major_version == 0xFF
}

/// A message that was written is the one that is read.
pub proof fn lemma_read(m: SdMessageView, session_id: u16)
    requires
        m.encodable(),
    ensures
        message_in(m.bytes(session_id)) == Some(m),
        session_in(m.bytes(session_id)) == session_id,
{
    sd_payload_round_trip(m);
    sd_message_framing(m, session_id);
    let data = m.bytes(session_id);
    header_round_trip(m.header(session_id), m.payload());
    assert(data.subrange(16, data.len() as int) =~= m.payload());
}

/// What is sent to nobody by discovery is not touched by clustering.
pub proof fn lemma_nothing_clustered(actions: Seq<ActionView>)
    requires
        forall|i: int| 0 <= i < actions.len() ==> !((#[trigger] actions[i]) is SendSd),
    ensures
        clustered(actions) == actions,
{
    crate::rows::lemma_filter_all(actions, not_sd());
    lemma_no_target(actions);
    assert(clustered(actions) =~= actions);
}

proof fn lemma_no_target(actions: Seq<ActionView>)
    requires
        forall|i: int| 0 <= i < actions.len() ==> !((#[trigger] actions[i]) is SendSd),
    ensures
        by_target(actions).len() == 0,
    decreases actions.len(),
{
    if actions.len() > 0 {
        let before = actions.drop_last();
        assert forall|i: int| 0 <= i < before.len() implies !((#[trigger] before[i]) is SendSd) by {
            assert(before[i] == actions[i]);
        }
        lemma_no_target(before);
        assert(!(actions[actions.len() - 1] is SendSd));
    }
}

/// A datagram with one entry does what its entry does.
pub proof fn lemma_one_entry_read(
    l: LoopView,
    data: Vec<u8>,
    m: SdMessageView,
    from: SocketAddr,
    now: u64,
    reply: ChannelId,
)
    requires
        message_in(data@) == Some(m),
        m.entries.len() == 1,
        !shows_reboot(l.state, from.ip, m.flags, session_in(data@)),
    ensures
        ({
            let noted = session_noted(l.state, from.ip, m.flags, session_in(data@));
            let (t, acts) = entry_handled(noted, Seq::empty(), m, m.entries[0], from, now);
            reaction(l, LoopEvent::SdPacket { data, from }, now, reply) == l.with(
                carried_out((t, clustered(acts))),
            )
        }),
{
    lemma_packet(l, data, from, now, reply);
    reveal_with_fuel(entries_handled, 2);
}

pub proof fn lemma_packet(l: LoopView, data: Vec<u8>, from: SocketAddr, now: u64, reply: ChannelId)
    ensures
        reaction(l, LoopEvent::SdPacket { data, from }, now, reply) == l.with(
            carried_out(sd_packet_handled(l.state, data@, from, now)),
        ),
{
}

/// A command that needs neither sockets nor connections.
pub open spec fn is_plain(command: Command) -> bool {
    !(command is Shutdown) && !(command is Offer) && !(command is Subscribe)
}

pub proof fn lemma_plain_command(l: LoopView, command: Command, now: u64, reply: ChannelId)
    requires
        is_plain(command),
    ensures
        reaction(l, LoopEvent::Command { command }, now, reply) == l.with(
            carried_out(command_handled(l.state, command, now)),
        ),
{
    assert(command_reaction(l.state, command, now) == carried_out(
        command_handled(l.state, command, now),
    ));
}

pub proof fn lemma_one_executed(s: StateView, a: ActionView)
    ensures
        carried_out((s, seq![a])) == executed(s, a),
        carried_out((s, Seq::empty())) == (s, Seq::<EffectView>::empty()),
{
    reveal_with_fuel(executed_all, 2);
    let (t, effects) = executed(s, a);
    assert(Seq::<EffectView>::empty() + effects =~= effects);
}

/// What is delivered is delivered, clustered or not.
pub proof fn lemma_told(s: StateView, to: ChannelId, message: crate::message::DeliveryView)
    ensures
        carried_out((s, clustered(seq![ActionView::Deliver { to, message }]))) == (
            s,
            seq![EffectView::Deliver { to, message }],
        ),
        carried_out((s, clustered(Seq::empty()))) == (s, Seq::<EffectView>::empty()),
{
    let a = ActionView::Deliver { to, message };
    lemma_nothing_clustered(seq![a]);
    lemma_nothing_clustered(Seq::empty());
    lemma_one_executed(s, a);
}

pub proof fn lemma_two_executed(s: StateView, a: ActionView, b: ActionView)
    ensures
        carried_out((s, seq![a, b])) == ({
            let (t, first) = executed(s, a);
            let (u, second) = executed(t, b);
            (u, first + second)
        }),
{
    reveal_with_fuel(executed_all, 3);
    let (t, first) = executed(s, a);
    assert(Seq::<EffectView>::empty() + first =~= first);
}

pub proof fn lemma_noted(s: StateView, peer: IpAddr, flags: u8, session_id: u16)
    requires
        s.wf(),
    ensures
        session_noted(s, peer, flags, session_id).wf(),
        session_noted(s, peer, flags, session_id) == (StateView {
            peer_sessions: session_noted(s, peer, flags, session_id).peer_sessions,
            ..s
        }),
{
    let t = s.peer_sessions;
    assert forall|v: crate::runtime::state::PeerSessionState| distinct(
        #[trigger] put(t, peer, v),
    ) by {
        lemma_put(t, peer, v);
    }
}

} // verus!
