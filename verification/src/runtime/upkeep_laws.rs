//! What holds of the upkeep of a runtime: of discovery messages that are held back, of hosts that
//! reboot, and of monitors.

use crate::discovery::{SdEntry, SdMessageView};
use crate::message::{ChannelId, DeliveryView};
use crate::net::{IpAddr, SocketAddr};
use crate::runtime::action::ActionView;
use crate::runtime::cluster::{
    by_target, carries, clustered, clustering_carries_every_entry,
    clustering_sends_one_message_per_target, gathered, merged, not_sd, sends, shifted, shifted_all,
    well_referenced,
};
use crate::runtime::command::Command;
use crate::runtime::event_loop::{reaction, LoopEvent, LoopView};
use crate::runtime::execute::{executed_all, not_from, not_on, not_to, EffectView};
use crate::runtime::incoming::{entries_handled, reboot_actions, session_noted, shows_reboot};
use crate::runtime::reading::{
    lemma_nothing_clustered, lemma_one_executed, lemma_packet, lemma_plain_command, lemma_read,
    lemma_two_executed, message_in, session_in,
};
use crate::runtime::state::{
    ClientSubscription, DiscoveredService, PeerChannelSession, PeerSessionState, ServerSubscription,
    ServiceKey, StateView, SubscriberSlot,
};
use crate::table::{distinct, has_key, lemma_put, lookup, put};
use vstd::prelude::*;

verus! {

/// The number of entries of all messages.
pub open spec fn all_entries(acts: Seq<ActionView>) -> nat
    decreases acts.len(),
{
    if acts.len() == 0 {
        0
    } else {
        all_entries(acts.drop_last()) + acts.last()->SendSd_message.entries.len()
    }
}

/// The number of options of all messages.
pub open spec fn all_options(acts: Seq<ActionView>) -> nat
    decreases acts.len(),
{
    if acts.len() == 0 {
        0
    } else {
        all_options(acts.drop_last()) + acts.last()->SendSd_message.options.len()
    }
}

/// Every entry of the message can be written.
pub open spec fn writable(m: SdMessageView) -> bool {
    forall|j: int| 0 <= j < m.entries.len() ==> (#[trigger] m.entries[j]).encodable()
}

/// A message holds an entry of another, with the same options.
pub open spec fn holds(r: SdMessageView, m: SdMessageView, e: SdEntry) -> bool {
    exists|p: int| #[trigger] carries(r, p, m, e)
}

proof fn lemma_merged_writable(base: SdMessageView, m: SdMessageView)
    requires
        writable(base),
        writable(m),
    ensures
        writable(merged(base, m)),
{
    let r = merged(base, m);
    let offset = (base.options.len() % 256) as u8;
    let more = shifted_all(m.entries, offset);
    assert forall|j: int| 0 <= j < r.entries.len() implies (#[trigger] r.entries[j]).encodable() by {
        if j < base.entries.len() {
            assert(r.entries[j] == base.entries[j]);
        } else {
            let k = j - base.entries.len();
            assert(r.entries[j] == more[k]);
            assert(more[k] == shifted(m.entries[k], offset));
            assert(m.entries[k].encodable());
        }
    }
}

proof fn lemma_rows_writable(acts: Seq<ActionView>)
    requires
        forall|i: int|
            0 <= i < acts.len() ==> (#[trigger] acts[i]) is SendSd && writable(
                acts[i]->SendSd_message,
            ),
    ensures
        ({
            let t = by_target(acts);
            &&& distinct(t)
            &&& forall|k: int|
                0 <= k < t.len() ==> {
                    &&& writable((#[trigger] t[k]).1)
                    &&& t[k].1.entries.len() <= all_entries(acts)
                    &&& t[k].1.options.len() <= all_options(acts)
                }
        }),
    decreases acts.len(),
{
    if acts.len() > 0 {
        let before = acts.drop_last();
        assert forall|i: int| 0 <= i < before.len() implies (#[trigger] before[i]) is SendSd
            && writable(before[i]->SendSd_message) by {
            assert(before[i] == acts[i]);
        }
        lemma_rows_writable(before);
        let t = by_target(before);
        let last = acts[acts.len() - 1];
        assert(acts.last() == last);
        let (m, target) = (last->SendSd_message, last->SendSd_target);
        let base = gathered(t, target, m);
        if has_key(t, target) {
            let p = crate::table::pos(t, target);
            assert(base == t[p].1);
        }
        assert(writable(base));
        assert(base.entries.len() <= all_entries(before));
        assert(base.options.len() <= all_options(before));
        lemma_merged_writable(base, m);
        let r = merged(base, m);
        lemma_put(t, target, r);
        let u = put(t, target, r);
        assert forall|k: int| 0 <= k < u.len() implies {
            &&& writable((#[trigger] u[k]).1)
            &&& u[k].1.entries.len() <= all_entries(acts)
            &&& u[k].1.options.len() <= all_options(acts)
        } by {
            if u[k].0 != target {
                assert(k < t.len() && u[k] == t[k]);
            } else {
                crate::table::lemma_lookup_at(u, k);
                assert(u[k].1 == r);
            }
        }
    }
}

proof fn lemma_sent(s: StateView, t: Seq<(SocketAddr, SdMessageView)>, n: int)
    requires
        0 <= n <= t.len(),
        forall|k: int|
            0 <= k < t.len() ==> (#[trigger] t[k]).1.encodable(),
    ensures
        ({
            let (u, effects) = executed_all(s, sends(t), n);
            &&& u == (StateView {
                multicast_session_id: u.multicast_session_id,
                multicast_has_wrapped_once: u.multicast_has_wrapped_once,
                unicast_session_id: u.unicast_session_id,
                unicast_has_wrapped_once: u.unicast_has_wrapped_once,
                ..s
            })
            &&& effects.len() == n
            &&& forall|k: int|
                0 <= k < n ==> {
                    let e = #[trigger] effects[k];
                    &&& e == (EffectView::SendSd { data: e->SendSd_data, target: t[k].0 })
                    &&& message_in(e->SendSd_data) == Some(t[k].1)
                }
        }),
    decreases n,
{
    if n > 0 {
        lemma_sent(s, t, n - 1);
        let (u, effects) = executed_all(s, sends(t), n - 1);
        assert(sends(t)[n - 1] == (ActionView::SendSd { message: t[n - 1].1, target: t[n - 1].0 }));
        assert(t[n - 1].1.encodable());
        lemma_read(t[n - 1].1, u.unicast_session_id);
        lemma_read(t[n - 1].1, u.multicast_session_id);
    }
}

/// What is held back is sent when it is due: to each host for which something was held back one
/// message, and to no other; and every entry of every message that was held back stands in the
/// message to its host, with the same options. Nothing is held back any more, and but for the
/// sessions nothing else changes.
pub proof fn what_is_held_back_is_sent(
    l: LoopView,
    now: u64,
    reply: ChannelId,
    i: int,
    j: int,
)
    requires
        l.wf(),
        forall|k: int|
            0 <= k < l.state.pending_unicast_sd.len() ==> writable(
                (#[trigger] l.state.pending_unicast_sd[k])->SendSd_message,
            ),
        all_options(l.state.pending_unicast_sd) <= 256,
        all_entries(l.state.pending_unicast_sd) <= 0x100_0000,
        0 <= i < l.state.pending_unicast_sd.len(),
        well_referenced(l.state.pending_unicast_sd[i]->SendSd_message),
        0 <= j < l.state.pending_unicast_sd[i]->SendSd_message.entries.len(),
    ensures
        ({
            let (after, effects) = reaction(l, LoopEvent::UnicastSdDue, now, reply);
            let s = l.state;
            let t = after.state;
            let held = s.pending_unicast_sd[i];
            let m = held->SendSd_message;
            &&& exists|k: int|
                {
                    &&& 0 <= k < effects.len()
                    &&& (#[trigger] effects[k]) is SendSd
                    &&& effects[k]->SendSd_target == held->SendSd_target
                    &&& message_in(effects[k]->SendSd_data) matches Some(r) && holds(
                        r,
                        m,
                        m.entries[j],
                    )
                }
            &&& forall|k: int|
                0 <= k < effects.len() ==> {
                    &&& (#[trigger] effects[k]) is SendSd
                    &&& exists|x: int|
                        0 <= x < s.pending_unicast_sd.len() && (
                        #[trigger] s.pending_unicast_sd[x])->SendSd_target
                            == effects[k]->SendSd_target
                }
            &&& forall|k: int, x: int|
                0 <= k < x < effects.len() ==> (#[trigger] effects[k])->SendSd_target != (
                #[trigger] effects[x])->SendSd_target
            &&& t.pending_unicast_sd.len() == 0
            &&& t.pending_unicast_sd_deadline is None
            &&& t == (StateView {
                pending_unicast_sd: t.pending_unicast_sd,
                pending_unicast_sd_deadline: None,
                multicast_session_id: t.multicast_session_id,
                multicast_has_wrapped_once: t.multicast_has_wrapped_once,
                unicast_session_id: t.unicast_session_id,
                unicast_has_wrapped_once: t.unicast_has_wrapped_once,
                ..s
            })
        }),
{
    let s = l.state;
    let acts = s.pending_unicast_sd;
    let rows = by_target(acts);
    lemma_rows_writable(acts);
    assert forall|k: int| 0 <= k < rows.len() implies (#[trigger] rows[k]).1.encodable() by {
        crate::discovery::sd_payload_size(rows[k].1);
        assert(writable(rows[k].1));
    }
    let empty = StateView {
        pending_unicast_sd: Seq::empty(),
        pending_unicast_sd_deadline: None,
        ..s
    };
    lemma_sent(empty, rows, rows.len() as int);
    lemma_flush(l, now, reply);
    let (_, effects) = reaction(l, LoopEvent::UnicastSdDue, now, reply);
    let held = acts[i];
    assert(held is SendSd);
    clustering_sends_one_message_per_target(acts, held->SendSd_target);
    assert(has_key(rows, held->SendSd_target));
    let k = crate::table::pos(rows, held->SendSd_target);
    assert(rows[k].0 == held->SendSd_target);
    clustering_carries_every_entry(acts, i, j);
    let r = rows[k].1;
    let m = held->SendSd_message;
    let p = choose|p: int| #[trigger] carries(r, p, m, m.entries[j]);
    assert(effects[k]->SendSd_target == held->SendSd_target);
    assert(holds(r, m, m.entries[j]));
    assert forall|k: int| 0 <= k < effects.len() implies {
        &&& (#[trigger] effects[k]) is SendSd
        &&& exists|x: int|
            0 <= x < acts.len() && (#[trigger] acts[x])->SendSd_target
                == effects[k]->SendSd_target
    } by {
        let target = rows[k].0;
        clustering_sends_one_message_per_target(acts, target);
        assert(has_key(rows, target));
        let x = choose|x: int|
            0 <= x < acts.len() && (#[trigger] acts[x] matches ActionView::SendSd {
                target: t,
                ..
            } && t == target);
        assert(acts[x]->SendSd_target == target);
    }
    assert forall|k: int, x: int| 0 <= k < x < effects.len() implies (
    #[trigger] effects[k])->SendSd_target != (#[trigger] effects[x])->SendSd_target by {
        assert(rows[k].0 != rows[x].0);
    }
}

proof fn lemma_flush(l: LoopView, now: u64, reply: ChannelId)
    requires
        l.wf(),
    ensures
        ({
            let s = l.state;
            let t = StateView {
                pending_unicast_sd: Seq::empty(),
                pending_unicast_sd_deadline: None,
                ..s
            };
            let rows = by_target(s.pending_unicast_sd);
            reaction(l, LoopEvent::UnicastSdDue, now, reply) == l.with(
                executed_all(t, sends(rows), rows.len() as int),
            )
        }),
{
    let acts = l.state.pending_unicast_sd;
    assert forall|i: int| 0 <= i < acts.len() implies !not_sd()(#[trigger] acts[i]) by {
        assert(acts[i] is SendSd);
    }
    crate::rows::lemma_filter_none(acts, not_sd());
    assert(clustered(acts) =~= sends(by_target(acts)));
}

/// A discovery message that is held back waits for a tenth of a second, or as long as those that
/// were held back before it.
pub proof fn messages_are_held_back_briefly(
    s: StateView,
    message: SdMessageView,
    target: SocketAddr,
    now: u64,
)
    ensures
        ({
            let t = s.queued(message, target, now);
            &&& t.pending_unicast_sd == s.pending_unicast_sd.push(
                ActionView::SendSd { message, target },
            )
            &&& t.pending_unicast_sd_deadline == (match s.pending_unicast_sd_deadline {
                Some(at) => Some(at),
                None => Some((now + 100_000_000) as u128),
            })
        }),
{
}

/// What is known of the sessions of a host on the channel that a message's flags name.
pub open spec fn seen_on(s: StateView, peer: IpAddr, flags: u8) -> Option<PeerChannelSession> {
    match lookup(s.peer_sessions, peer) {
        Some(p) => if flags & 0x40 != 0 {
            Some(p.unicast)
        } else {
            Some(p.multicast)
        },
        None => None,
    }
}

/// A host starts over: it raises its reboot flag, or its session goes back while the flag is up.
pub open spec fn starts_over(s: StateView, peer: IpAddr, flags: u8, session: u16) -> bool {
    match seen_on(s, peer, flags) {
        Some(seen) => match seen.last_session_id {
            Some(last) => flags & 0x80 != 0 && (!seen.last_reboot_flag || session < last),
            None => false,
        },
        None => false,
    }
}

/// A host is taken for rebooted exactly where it starts over.
pub proof fn reboots_are_starts_over(s: StateView, peer: IpAddr, flags: u8, session: u16)
    ensures
        shows_reboot(s, peer, flags, session) == starts_over(s, peer, flags, session),
{
}

/// A service runs on a host.
pub open spec fn runs_on_host(d: DiscoveredService, host: IpAddr) -> bool {
    (d.udp_endpoint is Some && d.udp_endpoint->0.ip == host) || (d.tcp_endpoint is Some
        && d.tcp_endpoint->0.ip == host)
}

/// A message shows which session of its channel its sender is in, which is remembered for the
/// next one. Where its sender starts over, the connections to it are closed, and the sender is
/// forgotten: its subscriptions, its services, and the subscriptions to them. Otherwise a message
/// without entries does nothing more.
pub proof fn a_host_that_starts_over_is_forgotten(
    l: LoopView,
    data: Vec<u8>,
    m: SdMessageView,
    from: SocketAddr,
    now: u64,
    reply: ChannelId,
    other: IpAddr,
)
    requires
        l.wf(),
        message_in(data@) == Some(m),
        m.entries.len() == 0,
    ensures
        ({
            let (after, effects) = reaction(l, LoopEvent::SdPacket { data, from }, now, reply);
            let s = l.state;
            let t = after.state;
            let peer = from.ip;
            let over = starts_over(s, peer, m.flags, session_in(data@));
            &&& effects == (if over {
                seq![EffectView::CloseConnections { peer }]
            } else {
                Seq::<EffectView>::empty()
            })
            &&& seen_on(t, peer, m.flags) == Some(
                PeerChannelSession {
                    last_session_id: Some(session_in(data@)),
                    last_reboot_flag: m.flags & 0x80 != 0,
                },
            )
            &&& match (lookup(s.peer_sessions, peer), lookup(t.peer_sessions, peer)) {
                (Some(p), Some(q)) => if m.flags & 0x40 != 0 {
                    q.multicast == p.multicast
                } else {
                    q.unicast == p.unicast
                },
                (None, Some(q)) => if m.flags & 0x40 != 0 {
                    q.multicast.last_session_id is None
                } else {
                    q.unicast.last_session_id is None
                },
                _ => false,
            }
            &&& other != peer ==> lookup(t.peer_sessions, other) == lookup(s.peer_sessions, other)
            &&& t.server_subscribers == (if over {
                s.server_subscribers.filter(
                    |x: (SubscriberSlot, ServerSubscription)| x.0.endpoint.ip != peer,
                )
            } else {
                s.server_subscribers
            })
            &&& t.discovered == (if over {
                s.discovered.filter(
                    |x: (ServiceKey, DiscoveredService)| !runs_on_host(x.1, peer),
                )
            } else {
                s.discovered
            })
            &&& t.subscriptions == (if over {
                s.subscriptions.filter(
                    |c: ClientSubscription|
                        !(has_key(s.discovered, c.service) && runs_on_host(
                            lookup(s.discovered, c.service)->0,
                            peer,
                        )),
                )
            } else {
                s.subscriptions
            })
            &&& t == (StateView {
                peer_sessions: t.peer_sessions,
                server_subscribers: t.server_subscribers,
                discovered: t.discovered,
                subscriptions: t.subscriptions,
                ..s
            })
        }),
{
    let s = l.state;
    let peer = from.ip;
    let session = session_in(data@);
    lemma_packet(l, data, from, now, reply);
    reboots_are_starts_over(s, peer, m.flags, session);
    let noted = session_noted(s, peer, m.flags, session);
    lemma_session_noted(s, peer, m.flags, session, other);
    let over = shows_reboot(s, peer, m.flags, session);
    let acts = reboot_actions(over, peer);
    assert(entries_handled(noted, acts, m, from, now, 0) == (noted, acts));
    let close = ActionView::ResetPeerTcpConnections { peer };
    let forget = ActionView::ExpirePeerSubscriptions { peer };
    lemma_two_executed(noted, close, forget);
    lemma_one_executed(noted, close);
    assert(clustered(acts) == acts) by {
        lemma_nothing_clustered(acts);
    }
    lemma_forgotten(s, peer);
    if over {
        assert(acts =~= seq![close, forget]);
        let told = seq![EffectView::CloseConnections { peer }];
        assert(told + Seq::<EffectView>::empty() =~= told);
    } else {
        assert(acts =~= Seq::<ActionView>::empty());
    }
}

proof fn lemma_session_noted(
    s: StateView,
    peer: IpAddr,
    flags: u8,
    session: u16,
    other: IpAddr,
)
    requires
        s.wf(),
    ensures
        ({
            let t = session_noted(s, peer, flags, session);
            &&& seen_on(t, peer, flags) == Some(
                PeerChannelSession {
                    last_session_id: Some(session),
                    last_reboot_flag: flags & 0x80 != 0,
                },
            )
            &&& match (lookup(s.peer_sessions, peer), lookup(t.peer_sessions, peer)) {
                (Some(p), Some(q)) => if flags & 0x40 != 0 {
                    q.multicast == p.multicast
                } else {
                    q.unicast == p.unicast
                },
                (None, Some(q)) => if flags & 0x40 != 0 {
                    q.multicast.last_session_id is None
                } else {
                    q.unicast.last_session_id is None
                },
                _ => false,
            }
            &&& other != peer ==> lookup(t.peer_sessions, other) == lookup(s.peer_sessions, other)
            &&& t == (StateView { peer_sessions: t.peer_sessions, ..s })
        }),
{
    let t = session_noted(s, peer, flags, session);
    let known = crate::runtime::incoming::known_peer(s, peer);
    let seen = PeerChannelSession {
        last_session_id: Some(session),
        last_reboot_flag: flags & 0x80 != 0,
    };
    lemma_put(s.peer_sessions, peer, PeerSessionState { multicast: seen, ..known });
    lemma_put(s.peer_sessions, peer, PeerSessionState { unicast: seen, ..known });
}

proof fn lemma_forgotten(s: StateView, peer: IpAddr)
    ensures
        s.server_subscribers.filter(not_from(peer)) == s.server_subscribers.filter(
            |x: (SubscriberSlot, ServerSubscription)| x.0.endpoint.ip != peer,
        ),
        s.discovered.filter(not_on(peer)) == s.discovered.filter(
            |x: (ServiceKey, DiscoveredService)| !runs_on_host(x.1, peer),
        ),
        s.subscriptions.filter(not_to(s.discovered, peer)) == s.subscriptions.filter(
            |c: ClientSubscription|
                !(has_key(s.discovered, c.service) && runs_on_host(
                    lookup(s.discovered, c.service)->0,
                    peer,
                )),
        ),
{
    let p = |x: (SubscriberSlot, ServerSubscription)| x.0.endpoint.ip != peer;
    assert(p =~= not_from(peer)) by {
        assert forall|x: (SubscriberSlot, ServerSubscription)| #[trigger] p(x) == not_from(peer)(
            x,
        ) by {}
    }
    let q = |x: (ServiceKey, DiscoveredService)| !runs_on_host(x.1, peer);
    assert(q =~= not_on(peer)) by {
        assert forall|x: (ServiceKey, DiscoveredService)| #[trigger] q(x) == not_on(peer)(x) by {}
    }
    let r = |c: ClientSubscription|
        !(has_key(s.discovered, c.service) && runs_on_host(
            lookup(s.discovered, c.service)->0,
            peer,
        ));
    assert(r =~= not_to(s.discovered, peer)) by {
        assert forall|c: ClientSubscription| #[trigger] r(c) == not_to(s.discovered, peer)(c) by {}
    }
}

/// A monitor that is added hears of services from then on, and one that is lost no longer;
/// nothing else changes.
pub proof fn monitors_come_and_go(
    l: LoopView,
    events: ChannelId,
    lost: Vec<ChannelId>,
    now: u64,
    reply: ChannelId,
)
    ensures
        reaction(l, LoopEvent::Command { command: Command::MonitorSd { events } }, now, reply) == (
            LoopView {
                state: StateView { sd_monitors: l.state.sd_monitors.push(events), ..l.state },
                ..l
            },
            Seq::<EffectView>::empty(),
        ),
        ({
            let (after, effects) = reaction(l, LoopEvent::MonitorsLost { lost }, now, reply);
            &&& effects.len() == 0
            &&& after.state.sd_monitors == l.state.sd_monitors.filter(
                |x: ChannelId| !lost@.contains(x),
            )
            &&& after.state == (StateView { sd_monitors: after.state.sd_monitors, ..l.state })
        }),
{
    let command = Command::MonitorSd { events };
    lemma_plain_command(l, command, now, reply);
    let t = StateView { sd_monitors: l.state.sd_monitors.push(events), ..l.state };
    lemma_one_executed(
        t,
        ActionView::Deliver { to: 0, message: DeliveryView::HasSubscribers(true) },
    );
    let p = |x: ChannelId| !lost@.contains(x);
    assert(p =~= crate::runtime::execute::not_lost(lost@)) by {
        assert forall|x: ChannelId| #[trigger] p(x) == crate::runtime::execute::not_lost(lost@)(
            x,
        ) by {}
    }
}

} // verus!
