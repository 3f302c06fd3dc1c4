//! What arrives from other hosts.

use crate::buffer::copy_to_bytes;
use crate::config::Transport;
use crate::discovery::{
    SdEntry, SdEntryType, SdMessage, SdMessageView, FLAG_REBOOT, FLAG_UNICAST,
};
use crate::message::ChannelId;
use crate::net::{IpAddr, SocketAddr};
use crate::runtime::action::{given, push, unless_empty, views, Action, ActionView};
use crate::runtime::client::{
    after_response, handle_incoming_notification, handle_incoming_response, notification_actions,
    response_actions,
};
use crate::runtime::cluster::{cluster_sd_actions, clustered};
use crate::runtime::sd_client::{
    after_ack, after_nack, after_offer, after_stop_offer, handle_offer, handle_stop_offer,
    handle_subscribe_ack, handle_subscribe_nack, offer_actions, stop_offer_actions,
};
use crate::runtime::sd_server::{
    after_subscribe, after_unsubscribe, find_answered, handle_find_request,
    handle_subscribe_request, handle_unsubscribe_request, subscribe_actions, unsubscribe_actions,
};
use crate::runtime::server::{
    fire_forget_actions, handle_incoming_fire_forget, handle_incoming_request, request_actions,
};
use crate::runtime::state::{
    unseen_peer, PeerSessionState, RuntimeState, SdChannel, ServiceKey, StateView,
};
use crate::table::{lookup, put};
use crate::wire::{Header, MessageType, PROTOCOL_VERSION};
use vstd::prelude::*;

verus! {

/// The channel on which a discovery message came.
pub open spec fn channel_of(flags: u8) -> SdChannel {
    if flags & FLAG_UNICAST != 0 {
        SdChannel::Unicast
    } else {
        SdChannel::Multicast
    }
}

/// What is known of a peer's sessions.
pub open spec fn known_peer(s: StateView, peer: IpAddr) -> PeerSessionState {
    match lookup(s.peer_sessions, peer) {
        Some(p) => p,
        None => unseen_peer(),
    }
}

/// A discovery message shows that its sender has rebooted.
pub open spec fn shows_reboot(s: StateView, peer: IpAddr, flags: u8, session_id: u16) -> bool {
    let p = known_peer(s, peer);
    match channel_of(flags) {
        SdChannel::Multicast => p.multicast.reboots(session_id, flags & FLAG_REBOOT != 0),
        SdChannel::Unicast => p.unicast.reboots(session_id, flags & FLAG_REBOOT != 0),
    }
}

/// The state that remembers the session of a discovery message, on its channel.
pub open spec fn session_noted(s: StateView, peer: IpAddr, flags: u8, session_id: u16) -> StateView {
    let p = known_peer(s, peer);
    let seen = crate::runtime::state::PeerChannelSession {
        last_session_id: Some(session_id),
        last_reboot_flag: flags & FLAG_REBOOT != 0,
    };
    StateView {
        peer_sessions: put(
            s.peer_sessions,
            peer,
            match channel_of(flags) {
                SdChannel::Multicast => PeerSessionState { multicast: seen, ..p },
                SdChannel::Unicast => PeerSessionState { unicast: seen, ..p },
            },
        ),
        ..s
    }
}

fn check_peer(state: &mut RuntimeState, peer: IpAddr, flags: u8, session_id: u16) -> (r: bool)
    requires
        old(state)@.wf(),
    ensures
        r == shows_reboot(old(state)@, peer, flags, session_id),
        final(state)@ == session_noted(old(state)@, peer, flags, session_id),
        final(state)@.wf(),
{
    let ghost s = state@;
    let reboot_flag: bool = flags & FLAG_REBOOT != 0;
    let channel = if flags & FLAG_UNICAST != 0 {
        SdChannel::Unicast
    } else {
        SdChannel::Multicast
    };
    let mut known = match state.peer_sessions.get(&peer) {
        Some(p) => *p,
        None => PeerSessionState::default(),
    };
    let rebooted: bool = match channel {
        SdChannel::Multicast => known.multicast.check_and_update(session_id, reboot_flag),
        SdChannel::Unicast => known.unicast.check_and_update(session_id, reboot_flag),
    };
    state.peer_sessions.insert(peer, known);
    assert(state@ =~= session_noted(s, peer, flags, session_id));
    rebooted
}

/// The state and the actions after one entry of a discovery message.
pub open spec fn entry_handled(
    s: StateView,
    acts: Seq<ActionView>,
    m: SdMessageView,
    e: SdEntry,
    from: SocketAddr,
    now: u64,
) -> (StateView, Seq<ActionView>) {
    match e.entry_type {
        SdEntryType::OfferService => if e.stops() {
            (after_stop_offer(s, e), acts + stop_offer_actions(s, e))
        } else {
            (after_offer(s, e, m, from, now), acts + offer_actions(s, e, m, from, now))
        },
        SdEntryType::FindService => (
            find_answered(s, e, from, now, s.offered.len() as int),
            acts,
        ),
        SdEntryType::SubscribeEventgroup => if e.stops() {
            (after_unsubscribe(s, e, m), acts + unsubscribe_actions(s, e, m))
        } else {
            (after_subscribe(s, e, m, from, now), acts + subscribe_actions(s, e, m))
        },
        SdEntryType::SubscribeEventgroupAck => if e.stops() {
            after_nack(s, acts, e)
        } else {
            after_ack(s, acts, e)
        },
    }
}

/// The state and the actions after the first `n` entries of a discovery message.
pub open spec fn entries_handled(
    s: StateView,
    acts: Seq<ActionView>,
    m: SdMessageView,
    from: SocketAddr,
    now: u64,
    n: int,
) -> (StateView, Seq<ActionView>)
    decreases n,
{
    if n <= 0 {
        (s, acts)
    } else {
        let (t, a) = entries_handled(s, acts, m, from, now, n - 1);
        entry_handled(t, a, m, m.entries[n - 1], from, now)
    }
}

/// What is done when a peer has rebooted: its connections and subscriptions are dropped.
pub open spec fn reboot_actions(rebooted: bool, peer: IpAddr) -> Seq<ActionView> {
    if rebooted {
        seq![
            ActionView::ResetPeerTcpConnections { peer },
            ActionView::ExpirePeerSubscriptions { peer },
        ]
    } else {
        Seq::empty()
    }
}

/// The state and the actions after a discovery message. A malformed one does nothing;
/// otherwise its session is checked, its entries are handled in order, and the messages that
/// result are merged per target.
pub open spec fn sd_handled(
    s: StateView,
    header: Header,
    payload: Seq<u8>,
    from: SocketAddr,
    now: u64,
) -> (StateView, Seq<ActionView>) {
    match SdMessageView::parsed(payload) {
        None => (s, Seq::empty()),
        Some(m) => {
            let rebooted = shows_reboot(s, from.ip, m.flags, header.session_id);
            let (t, acts) = entries_handled(
                session_noted(s, from.ip, m.flags, header.session_id),
                reboot_actions(rebooted, from.ip),
                m,
                from,
                now,
                m.entries.len() as int,
            );
            (t, clustered(acts))
        },
    }
}

fn handle_entry(
    entry: &SdEntry,
    sd_message: &SdMessage,
    from: SocketAddr,
    state: &mut RuntimeState,
    actions: &mut Vec<Action>,
    now: u64,
)
    requires
        old(state)@.wf(),
    ensures
        (final(state)@, views(final(actions)@)) == entry_handled(
            old(state)@,
            views(old(actions)@),
            sd_message@,
            *entry,
            from,
            now,
        ),
        final(state)@.wf(),
{
    match entry.entry_type {
        SdEntryType::OfferService => {
            if entry.is_stop() {
                handle_stop_offer(entry, state, actions);
            } else {
                handle_offer(entry, sd_message, from, state, actions, now);
            }
        },
        SdEntryType::FindService => {
            handle_find_request(entry, from, state, now);
        },
        SdEntryType::SubscribeEventgroup => {
            if entry.is_stop() {
                handle_unsubscribe_request(entry, sd_message, state, actions);
            } else {
                handle_subscribe_request(entry, sd_message, from, state, actions, now);
            }
        },
        SdEntryType::SubscribeEventgroupAck => {
            if entry.is_stop() {
                handle_subscribe_nack(entry, state, actions);
            } else {
                handle_subscribe_ack(entry, state, actions);
            }
        },
    }
}

/// Handles a discovery message, given its header and what follows.
pub fn handle_sd_message(
    header: &Header,
    payload: &[u8],
    from: SocketAddr,
    state: &mut RuntimeState,
    now: u64,
) -> (r: Option<Vec<Action>>)
    requires
        old(state)@.wf(),
    ensures
        (final(state)@, given(r)) == sd_handled(old(state)@, *header, payload@, from, now),
        r is None <==> given(r).len() == 0,
        final(state)@.wf(),
{
    let sd_message = match SdMessage::parse(payload) {
        Some(sd_message) => sd_message,
        None => {
            return None;
        },
    };
    let ghost m = sd_message@;
    let mut actions: Vec<Action> = Vec::new();
    let peer = from.ip;
    let ghost rebooted = shows_reboot(state@, peer, m.flags, header.session_id);
    if check_peer(state, peer, sd_message.flags, header.session_id) {
        push(&mut actions, Action::ResetPeerTcpConnections { peer });
        push(&mut actions, Action::ExpirePeerSubscriptions { peer });
    }
    let ghost s = state@;
    let ghost acts = reboot_actions(rebooted, peer);
    assert(views(actions@) =~= acts);
    let mut i: usize = 0;
    while i < sd_message.entries.len()
        invariant
            0 <= i <= m.entries.len(),
            m == sd_message@,
            (state@, views(actions@)) == entries_handled(s, acts, m, from, now, i as int),
            state@.wf(),
        decreases m.entries.len() - i,
    {
        handle_entry(&sd_message.entries[i], &sd_message, from, state, &mut actions, now);
        i += 1;
    }
    unless_empty(cluster_sd_actions(actions))
}

/// The state and the actions after a message to or from a service. One of another protocol
/// version, one whose payload is cut short, and segments do nothing.
pub open spec fn method_handled(
    s: StateView,
    header: Header,
    rest: Seq<u8>,
    from: SocketAddr,
    socket: Option<ServiceKey>,
    transport: Transport,
    conn_key: u64,
    reply: ChannelId,
) -> (StateView, Seq<ActionView>) {
    if header.protocol_version != PROTOCOL_VERSION || rest.len() < header.payload_len() {
        (s, Seq::empty())
    } else {
        let payload = rest.subrange(0, header.payload_len());
        match header.message_type {
            MessageType::Request => (
                s,
                request_actions(s, header, payload, from, socket, transport, reply),
            ),
            MessageType::RequestNoReturn => (
                s,
                fire_forget_actions(s, header, payload, from, socket),
            ),
            MessageType::Response | MessageType::Error => (
                after_response(s, header),
                response_actions(s, header, payload),
            ),
            MessageType::Notification => (
                s,
                notification_actions(s, header, payload, from, conn_key),
            ),
            _ => (s, Seq::empty()),
        }
    }
}

/// Handles a message to or from a service, given its header and what follows; `reply` is
/// where the answer to a request will arrive.
pub fn handle_method_message(
    header: &Header,
    rest: &[u8],
    from: SocketAddr,
    state: &mut RuntimeState,
    service_key: Option<ServiceKey>,
    transport: Transport,
    conn_key: u64,
    reply: ChannelId,
) -> (r: Option<Vec<Action>>)
    requires
        old(state)@.wf(),
    ensures
        (final(state)@, given(r)) == method_handled(
            old(state)@,
            *header,
            rest@,
            from,
            service_key,
            transport,
            conn_key,
            reply,
        ),
        r is None <==> given(r).len() == 0,
        final(state)@.wf(),
{
    if header.protocol_version != PROTOCOL_VERSION {
        return None;
    }
    let payload_len: usize = header.payload_length();
    if rest.len() < payload_len {
        return None;
    }
    let payload = copy_to_bytes(rest, payload_len);
    let mut actions: Vec<Action> = Vec::new();
    assert(views(actions@) =~= Seq::<ActionView>::empty());
    assert forall|a: Seq<ActionView>| #[trigger] (Seq::<ActionView>::empty() + a) == a by {
        assert(Seq::<ActionView>::empty() + a =~= a);
    }
    match header.message_type {
        MessageType::Request => {
            handle_incoming_request(
                header,
                payload,
                from,
                state,
                &mut actions,
                service_key,
                transport,
                reply,
            );
        },
        MessageType::RequestNoReturn => {
            handle_incoming_fire_forget(header, payload, from, state, &mut actions, service_key);
        },
        MessageType::Response | MessageType::Error => {
            handle_incoming_response(header, payload, state, &mut actions);
        },
        MessageType::Notification => {
            handle_incoming_notification(header, payload, from, state, conn_key, &mut actions);
        },
        _ => {},
    }
    unless_empty(actions)
}

} // verus!
