//! How actions are carried out: what they change in the state, and what is left for the
//! surroundings to do.

use crate::buffer::content;
use crate::config::{MethodConfig, PortSpec, Transport};
use crate::discovery::FLAG_UNICAST;
use crate::ids::{InstanceId, ServiceId};
use crate::message::{
    ChannelId, Delivery, DeliveryView, SdEvent, ServiceAvailability, ServiceRequest,
    ServiceRequestView,
};
use crate::net::{IpAddr, SocketAddr};
use crate::runtime::action::{views, Action, ActionView, PendingServerResponse, RpcTransportSender};
use crate::runtime::state::{
    ClientSubscription, DiscoveredService, FindRequest, RuntimeState, ServerSubscription,
    ServiceKey, StateView, SubscriberSlot,
};
use crate::runtime::subscribe::{RequestView, SubscribeRequest};
use crate::table::lookup;
use vstd::prelude::*;

verus! {

/// An offer whose sockets have to be opened first.
pub struct PendingOffer {
    /// The service.
    pub service_id: ServiceId,
    /// The instance.
    pub instance_id: InstanceId,
    /// The major version.
    pub major_version: u8,
    /// The minor version.
    pub minor_version: u32,
    /// Settings of single methods.
    pub method_config: MethodConfig,
    /// Where requests go.
    pub requests: ChannelId,
    /// Where the outcome goes.
    pub response: ChannelId,
}

impl PendingOffer {
    /// The service instance.
    pub open spec fn key(self) -> ServiceKey {
        ServiceKey::of(self.service_id, self.instance_id, self.major_version)
    }
}

/// Something for the surroundings to do.
#[allow(inconsistent_fields)]
pub enum Effect {
    /// Send bytes from the discovery socket.
    SendSd {
        /// The bytes.
        data: Vec<u8>,
        /// Where to.
        target: SocketAddr,
    },
    /// Send a message on a TCP connection to a server.
    SendTcp {
        /// The bytes.
        data: bytes::Bytes,
        /// The server.
        target: SocketAddr,
    },
    /// Send a message from the request socket.
    SendUdp {
        /// The socket's sending end.
        via: ChannelId,
        /// The bytes.
        data: bytes::Bytes,
        /// The server.
        target: SocketAddr,
    },
    /// Send a message from a socket of an offered service.
    SendFromService {
        /// The socket's sending end.
        via: RpcTransportSender,
        /// The bytes.
        data: bytes::Bytes,
        /// The client.
        target: SocketAddr,
    },
    /// Hand a message to a handle, whether or not the handle takes it.
    Deliver {
        /// The handle.
        to: ChannelId,
        /// The message.
        message: Delivery,
    },
    /// Hand a request to a service, and say whether it was taken.
    DeliverRequest {
        /// The service's handle.
        to: ChannelId,
        /// The request.
        request: ServiceRequest,
        /// What its answer needs, where an answer can be sent.
        context: Option<PendingServerResponse>,
        /// Where the answer arrives.
        reply: ChannelId,
    },
    /// Await the answer to a request.
    AwaitAnswer {
        /// What the answer needs.
        context: PendingServerResponse,
        /// Where the answer arrives.
        receiver: ChannelId,
    },
    /// Tell monitors, and say which of them are gone.
    TellMonitors {
        /// The monitors.
        monitors: Vec<ChannelId>,
        /// What was observed.
        event: SdEvent,
    },
    /// Close the TCP connections to a host.
    CloseConnections {
        /// The host.
        peer: IpAddr,
    },
    /// Open a TCP connection for a subscription.
    Connect {
        /// The server.
        endpoint: SocketAddr,
        /// The connection's slot.
        conn_key: u64,
        /// The local port.
        local_port: PortSpec,
        /// The subscription.
        request: SubscribeRequest,
    },
    /// Open a UDP socket for a subscription.
    Bind {
        /// The local address.
        ip: IpAddr,
        /// The local port.
        local_port: PortSpec,
        /// The subscription.
        request: SubscribeRequest,
    },
    /// Open the sockets of an offer.
    OpenSockets {
        /// The address for UDP.
        udp: Option<SocketAddr>,
        /// The address for TCP.
        tcp: Option<SocketAddr>,
        /// The offer.
        offer: PendingOffer,
    },
    /// Send the answers that are still awaited, and stop.
    Stop,
}

/// What an [`Effect`] says.
#[allow(inconsistent_fields)]
pub enum EffectView {
    /// Send bytes from the discovery socket.
    SendSd {
        /// The bytes.
        data: Seq<u8>,
        /// Where to.
        target: SocketAddr,
    },
    /// Send a message on a TCP connection to a server.
    SendTcp {
        /// The bytes.
        data: Seq<u8>,
        /// The server.
        target: SocketAddr,
    },
    /// Send a message from the request socket.
    SendUdp {
        /// The socket's sending end.
        via: ChannelId,
        /// The bytes.
        data: Seq<u8>,
        /// The server.
        target: SocketAddr,
    },
    /// Send a message from a socket of an offered service.
    SendFromService {
        /// The socket's sending end.
        via: RpcTransportSender,
        /// The bytes.
        data: Seq<u8>,
        /// The client.
        target: SocketAddr,
    },
    /// Hand a message to a handle.
    Deliver {
        /// The handle.
        to: ChannelId,
        /// The message.
        message: DeliveryView,
    },
    /// Hand a request to a service.
    DeliverRequest {
        /// The service's handle.
        to: ChannelId,
        /// The request.
        request: ServiceRequestView,
        /// What its answer needs.
        context: Option<PendingServerResponse>,
        /// Where the answer arrives.
        reply: ChannelId,
    },
    /// Await the answer to a request.
    AwaitAnswer {
        /// What the answer needs.
        context: PendingServerResponse,
        /// Where the answer arrives.
        receiver: ChannelId,
    },
    /// Tell monitors.
    TellMonitors {
        /// The monitors.
        monitors: Seq<ChannelId>,
        /// What was observed.
        event: SdEvent,
    },
    /// Close the TCP connections to a host.
    CloseConnections {
        /// The host.
        peer: IpAddr,
    },
    /// Open a TCP connection for a subscription.
    Connect {
        /// The server.
        endpoint: SocketAddr,
        /// The connection's slot.
        conn_key: u64,
        /// The local port.
        local_port: PortSpec,
        /// The subscription.
        request: RequestView,
    },
    /// Open a UDP socket for a subscription.
    Bind {
        /// The local address.
        ip: IpAddr,
        /// The local port.
        local_port: PortSpec,
        /// The subscription.
        request: RequestView,
    },
    /// Open the sockets of an offer.
    OpenSockets {
        /// The address for UDP.
        udp: Option<SocketAddr>,
        /// The address for TCP.
        tcp: Option<SocketAddr>,
        /// The offer.
        offer: PendingOffer,
    },
    /// Send the answers that are still awaited, and stop.
    Stop,
}

impl View for Effect {
    type V = EffectView;

    open spec fn view(&self) -> EffectView {
        match *self {
            Effect::SendSd { data, target } => EffectView::SendSd { data: data@, target },
            Effect::SendTcp { data, target } => EffectView::SendTcp {
                data: content(data),
                target,
            },
            Effect::SendUdp { via, data, target } => EffectView::SendUdp {
                via,
                data: content(data),
                target,
            },
            Effect::SendFromService { via, data, target } => EffectView::SendFromService {
                via,
                data: content(data),
                target,
            },
            Effect::Deliver { to, message } => EffectView::Deliver { to, message: message@ },
            Effect::DeliverRequest { to, request, context, reply } =>
                EffectView::DeliverRequest { to, request: request@, context, reply },
            Effect::AwaitAnswer { context, receiver } => EffectView::AwaitAnswer {
                context,
                receiver,
            },
            Effect::TellMonitors { monitors, event } => EffectView::TellMonitors {
                monitors: monitors@,
                event,
            },
            Effect::CloseConnections { peer } => EffectView::CloseConnections { peer },
            Effect::Connect { endpoint, conn_key, local_port, request } => EffectView::Connect {
                endpoint,
                conn_key,
                local_port,
                request: request@,
            },
            Effect::Bind { ip, local_port, request } => EffectView::Bind {
                ip,
                local_port,
                request: request@,
            },
            Effect::OpenSockets { udp, tcp, offer } => EffectView::OpenSockets {
                udp,
                tcp,
                offer,
            },
            Effect::Stop => EffectView::Stop,
        }
    }
}

/// What a list of effects says.
pub open spec fn effect_views(effects: Seq<Effect>) -> Seq<EffectView> {
    effects.map_values(|e: Effect| e@)
}

/// Appends an effect.
pub(crate) fn push_effect(effects: &mut Vec<Effect>, effect: Effect)
    ensures
        effect_views(final(effects)@) == effect_views(old(effects)@).push(effect@),
{
    effects.push(effect);
    assert(effect_views(effects@) =~= effect_views(old(effects)@).push(effect@));
}

/// The first `n` searches, as far as a service matches them, are answered.
pub open spec fn searches_answered(
    finds: Seq<(ServiceKey, FindRequest)>,
    key: ServiceKey,
    availability: ServiceAvailability,
    n: int,
) -> Seq<EffectView>
    decreases n,
{
    if n <= 0 {
        Seq::empty()
    } else {
        let before = searches_answered(finds, key, availability, n - 1);
        if finds[n - 1].0.matching(key) {
            before.push(
                EffectView::Deliver {
                    to: finds[n - 1].1.notify,
                    message: DeliveryView::Availability(availability),
                },
            )
        } else {
            before
        }
    }
}

/// Wants the subscriptions of other hosts.
pub open spec fn not_from(peer: IpAddr) -> spec_fn((SubscriberSlot, ServerSubscription)) -> bool {
    |e: (SubscriberSlot, ServerSubscription)| e.0.endpoint.ip != peer
}

/// A service is known to run on a host.
pub open spec fn known_on(
    discovered: Seq<(ServiceKey, DiscoveredService)>,
    key: ServiceKey,
    peer: IpAddr,
) -> bool {
    lookup(discovered, key) matches Some(d) && d.runs_on(peer)
}

/// Wants the subscriptions to services that are not known to run on a host.
pub open spec fn not_to(discovered: Seq<(ServiceKey, DiscoveredService)>, peer: IpAddr) -> spec_fn(
    ClientSubscription,
) -> bool {
    |c: ClientSubscription| !known_on(discovered, c.service, peer)
}

/// Wants the services of other hosts.
pub open spec fn not_on(peer: IpAddr) -> spec_fn((ServiceKey, DiscoveredService)) -> bool {
    |e: (ServiceKey, DiscoveredService)| !e.1.runs_on(peer)
}

/// The state without what a host that has rebooted had to do with: its subscriptions, the
/// subscriptions to its services, and its services.
pub open spec fn peer_expired(s: StateView, peer: IpAddr) -> StateView {
    StateView {
        server_subscribers: s.server_subscribers.filter(not_from(peer)),
        subscriptions: s.subscriptions.filter(not_to(s.discovered, peer)),
        discovered: s.discovered.filter(not_on(peer)),
        ..s
    }
}

/// The state and the effects after an action was carried out.
pub open spec fn executed(s: StateView, action: ActionView) -> (StateView, Seq<EffectView>) {
    match action {
        ActionView::SendSd { message, target } => if message.flags & FLAG_UNICAST != 0 {
            (
                s.unicast_session_used(),
                seq![EffectView::SendSd { data: message.bytes(s.unicast_session_id), target }],
            )
        } else {
            (
                s.multicast_session_used(),
                seq![EffectView::SendSd { data: message.bytes(s.multicast_session_id), target }],
            )
        },
        ActionView::NotifyFound { key, availability } => (
            s,
            searches_answered(
                s.find_requests,
                key,
                availability,
                s.find_requests.len() as int,
            ),
        ),
        ActionView::SendClientMessage { data, target, transport } => (
            s,
            match transport {
                Transport::Tcp => seq![EffectView::SendTcp { data, target }],
                Transport::Udp => seq![EffectView::SendUdp { via: s.client_rpc_tx, data, target }],
            },
        ),
        ActionView::SendServerMessage { service_key, data, target, transport } => (
            s,
            match lookup(s.offered, service_key) {
                Some(offered) => match offered.sender(transport) {
                    Some(via) => seq![EffectView::SendFromService { via, data, target }],
                    None => Seq::empty(),
                },
                None => Seq::empty(),
            },
        ),
        ActionView::TrackServerResponse { context, receiver } => (
            s,
            seq![EffectView::AwaitAnswer { context, receiver }],
        ),
        ActionView::EmitSdEvent { event } => (
            s,
            seq![EffectView::TellMonitors { monitors: s.sd_monitors, event }],
        ),
        ActionView::ResetPeerTcpConnections { peer } => (
            s,
            seq![EffectView::CloseConnections { peer }],
        ),
        ActionView::ExpirePeerSubscriptions { peer } => (peer_expired(s, peer), Seq::empty()),
        ActionView::Deliver { to, message } => (s, seq![EffectView::Deliver { to, message }]),
        ActionView::DeliverRequest { to, request, context, reply } => (
            s,
            seq![EffectView::DeliverRequest { to, request, context, reply }],
        ),
    }
}

/// The state and the effects after the first `n` actions were carried out, in order.
pub open spec fn executed_all(s: StateView, actions: Seq<ActionView>, n: int) -> (
    StateView,
    Seq<EffectView>,
)
    decreases n,
{
    if n <= 0 {
        (s, Seq::empty())
    } else {
        let (t, effects) = executed_all(s, actions, n - 1);
        let (u, more) = executed(t, actions[n - 1]);
        (u, effects + more)
    }
}

fn answer_searches(
    state: &RuntimeState,
    key: ServiceKey,
    availability: ServiceAvailability,
    effects: &mut Vec<Effect>,
)
    ensures
        effect_views(final(effects)@) == effect_views(old(effects)@) + searches_answered(
            state@.find_requests,
            key,
            availability,
            state@.find_requests.len() as int,
        ),
{
    let ghost finds = state@.find_requests;
    let ghost before = effect_views(effects@);
    let mut i: usize = 0;
    assert(before + Seq::<EffectView>::empty() =~= before);
    while i < state.find_requests.len()
        invariant
            0 <= i <= finds.len(),
            finds == state.find_requests@,
            effect_views(effects@) == before + searches_answered(
                finds,
                key,
                availability,
                i as int,
            ),
        decreases finds.len() - i,
    {
        if state.find_requests.key_at(i).matches(key) {
            push_effect(
                effects,
                Effect::Deliver {
                    to: state.find_requests.value_at(i).notify,
                    message: Delivery::Availability(availability),
                },
            );
        }
        i += 1;
        assert(effect_views(effects@) =~= before + searches_answered(
            finds,
            key,
            availability,
            i as int,
        ));
    }
}

fn expire_subscriptions_to(state: &mut RuntimeState, peer: IpAddr)
    requires
        old(state)@.wf(),
    ensures
        final(state)@ == (StateView {
            subscriptions: old(state)@.subscriptions.filter(not_to(old(state)@.discovered, peer)),
            ..old(state)@
        }),
{
    let ghost s = state@;
    let ghost wanted = not_to(s.discovered, peer);
    let mut kept: Vec<ClientSubscription> = Vec::new();
    let mut i: usize = 0;
    proof {
        reveal(Seq::filter);
    }
    while i < state.subscriptions.len()
        invariant
            0 <= i <= s.subscriptions.len(),
            state@ == s,
            s.wf(),
            wanted == not_to(s.discovered, peer),
            kept@ == s.subscriptions.take(i as int).filter(wanted),
        decreases s.subscriptions.len() - i,
    {
        proof {
            crate::rows::lemma_filter_step(s.subscriptions, i as int, wanted);
        }
        let c = state.subscriptions[i];
        let on_peer: bool = match state.discovered.get(&c.service) {
            Some(d) => d.is_on(peer),
            None => false,
        };
        if !on_peer {
            kept.push(c);
        }
        i += 1;
    }
    assert(s.subscriptions.take(i as int) =~= s.subscriptions);
    state.subscriptions = kept;
    assert(state@ =~= (StateView { subscriptions: s.subscriptions.filter(wanted), ..s }));
}

/// Drops what a host that has rebooted had to do with.
pub fn expire_peer(state: &mut RuntimeState, peer: IpAddr)
    requires
        old(state)@.wf(),
    ensures
        final(state)@ == peer_expired(old(state)@, peer),
        final(state)@.wf(),
{
    let ghost s = state@;
    let from_others = |e: (SubscriberSlot, ServerSubscription)| -> (b: bool)
        ensures
            b == (e.0.endpoint.ip != peer),
        { e.0.endpoint.ip != peer };
    state.server_subscribers.keep_where(from_others, Ghost(not_from(peer)));
    expire_subscriptions_to(state, peer);
    let on_others = |e: (ServiceKey, DiscoveredService)| -> (b: bool)
        ensures
            b == !e.1.runs_on(peer),
        { !e.1.is_on(peer) };
    state.discovered.keep_where(on_others, Ghost(not_on(peer)));
    assert(state@ =~= peer_expired(s, peer));
}

/// Carries an action out.
pub fn execute_action(action: Action, state: &mut RuntimeState, effects: &mut Vec<Effect>)
    requires
        old(state)@.wf(),
    ensures
        final(state)@ == executed(old(state)@, action@).0,
        effect_views(final(effects)@) == effect_views(old(effects)@) + executed(
            old(state)@,
            action@,
        ).1,
        final(state)@.wf(),
{
    let ghost s = state@;
    let ghost before = effect_views(effects@);
    match action {
        Action::SendSd { message, target } => {
            let session_id: u16 = if message.flags & FLAG_UNICAST != 0 {
                state.next_unicast_session_id()
            } else {
                state.next_multicast_session_id()
            };
            let data = message.serialize(session_id);
            push_effect(effects, Effect::SendSd { data, target });
        },
        Action::NotifyFound { key, availability } => {
            answer_searches(state, key, availability, effects);
        },
        Action::SendClientMessage { data, target, transport } => match transport {
            Transport::Tcp => {
                push_effect(effects, Effect::SendTcp { data, target });
            },
            Transport::Udp => {
                push_effect(effects, Effect::SendUdp { via: state.client_rpc_tx, data, target });
            },
        },
        Action::SendServerMessage { service_key, data, target, transport } => {
            let sender = match state.offered.get(&service_key) {
                Some(offered) => offered.transport_sender(transport),
                None => None,
            };
            if let Some(via) = sender {
                push_effect(effects, Effect::SendFromService { via, data, target });
            }
        },
        Action::TrackServerResponse { context, receiver } => {
            push_effect(effects, Effect::AwaitAnswer { context, receiver });
        },
        Action::EmitSdEvent { event } => {
            let monitors = crate::rows::copy(&state.sd_monitors);
            push_effect(effects, Effect::TellMonitors { monitors, event });
        },
        Action::ResetPeerTcpConnections { peer } => {
            push_effect(effects, Effect::CloseConnections { peer });
        },
        Action::ExpirePeerSubscriptions { peer } => {
            expire_peer(state, peer);
        },
        Action::Deliver { to, message } => {
            push_effect(effects, Effect::Deliver { to, message });
        },
        Action::DeliverRequest { to, request, context, reply } => {
            push_effect(effects, Effect::DeliverRequest { to, request, context, reply });
        },
    }
    assert(effect_views(effects@) =~= before + executed(s, action@).1);
}

/// Carries actions out, in order.
pub fn execute_actions(actions: Vec<Action>, state: &mut RuntimeState, effects: &mut Vec<Effect>)
    requires
        old(state)@.wf(),
    ensures
        final(state)@ == executed_all(
            old(state)@,
            views(actions@),
            actions@.len() as int,
        ).0,
        effect_views(final(effects)@) == effect_views(old(effects)@) + executed_all(
            old(state)@,
            views(actions@),
            actions@.len() as int,
        ).1,
        final(state)@.wf(),
{
    let ghost s = state@;
    let ghost before = effect_views(effects@);
    let ghost all = views(actions@);
    assert(before + Seq::<EffectView>::empty() =~= before);
    for action in it: actions
        invariant
            all == views(it.seq()),
            state@.wf(),
            state@ == executed_all(s, all, it.index() as int).0,
            effect_views(effects@) == before + executed_all(s, all, it.index() as int).1,
    {
        let ghost i = it.index() as int;
        let ghost t = state@;
        assert(all[i] == action@);
        execute_action(action, state, effects);
        assert(executed_all(s, all, i + 1) == (
            executed(t, all[i]).0,
            executed_all(s, all, i).1 + executed(t, all[i]).1,
        ));
        assert(effect_views(effects@) =~= before + executed_all(s, all, i + 1).1);
    }
}

/// Wants the monitors that are not lost.
pub open spec fn not_lost(lost: Seq<ChannelId>) -> spec_fn(ChannelId) -> bool {
    |m: ChannelId| !lost.contains(m)
}

fn contains_channel(channels: &Vec<ChannelId>, channel: ChannelId) -> (r: bool)
    ensures
        r == channels@.contains(channel),
{
    let mut i: usize = 0;
    while i < channels.len()
        invariant
            0 <= i <= channels@.len(),
            forall|j: int| 0 <= j < i ==> channels@[j] != channel,
        decreases channels@.len() - i,
    {
        if channels[i] == channel {
            return true;
        }
        i += 1;
    }
    false
}

/// Forgets monitors that are gone.
pub fn forget_monitors(lost: &Vec<ChannelId>, state: &mut RuntimeState)
    requires
        old(state)@.wf(),
    ensures
        final(state)@ == (StateView {
            sd_monitors: old(state)@.sd_monitors.filter(not_lost(lost@)),
            ..old(state)@
        }),
        final(state)@.wf(),
{
    let ghost s = state@;
    let kept = |m: ChannelId| -> (b: bool)
        ensures
            b == !lost@.contains(m),
        { !contains_channel(lost, m) };
    crate::rows::keep(&mut state.sd_monitors, kept, Ghost(not_lost(lost@)));
    assert(state@ =~= (StateView { sd_monitors: s.sd_monitors.filter(not_lost(lost@)), ..s }));
}

} // verus!
