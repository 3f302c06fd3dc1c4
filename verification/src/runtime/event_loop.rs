//! The event loop: what the runtime does on each event.
//!
//! The loop itself waits for events and carries effects out; every decision in between is
//! made by [`EventLoop::react`].

use crate::buffer::{as_slice, content};
use crate::config::{MethodConfig, OfferConfig, Transport, TransportSelection};
use crate::error::{Error, ErrorView, IoError};
use crate::ids::{InstanceId, ServiceId};
use crate::message::{ChannelId, Delivery, DeliveryView, Reply};
use crate::net::{IpAddr, SocketAddr};
use crate::runtime::action::{given, views, Action, ActionView, PendingServerResponse};
use crate::runtime::client_concurrent::{
    after_update, apply_subscribe_update, StateUpdateView, SubscribeStateUpdate,
};
use crate::runtime::cluster::clustered;
use crate::runtime::command::{command_handled, handle_command, Command};
use crate::runtime::execute::{
    effect_views, execute_actions, executed_all, forget_monitors, not_lost, push_effect, Effect,
    EffectView, PendingOffer,
};
use crate::runtime::incoming::{
    handle_method_message, handle_sd_message, method_handled, sd_handled,
};
use crate::runtime::periodic::{
    after_initial_offers, after_periodic, flush_pending_initial_offers, handle_periodic,
    initial_offer_actions, periodic_actions, stop_offers, stop_offers_message,
};
use crate::runtime::rpc::{build_response, can_be_sent, payload_fits, response_bytes};
use crate::runtime::server::{
    after_offer_command, first_offer_of, handle_offer_command, new_offer,
    offer_address, offer_addresses, offer_ports_fit, offer_refusal, request_delivered,
    SocketOutcome,
};
use crate::runtime::state::{
    RuntimeState, ServiceKey, StateView, LATEST_CYCLE, MILLISECOND,
};
use crate::runtime::subscribe::{
    after_subscribe_command, after_subscription, handle_subscribe_command, io_refusal,
    refusal_actions, resume_bound, resume_connected, subscribe_command_step, subscribe_refusal,
    RequestView, StepView, SubscribeRequest, SubscribeStep,
};
use crate::table::has_key;
use crate::wire::{Header, SD_METHOD_ID, SD_SERVICE_ID};
use vstd::prelude::*;
use vstd::slice::slice_subrange;

verus! {

/// What the event loop waits for.
#[allow(inconsistent_fields)]
pub enum LoopEvent {
    /// A datagram on the discovery socket.
    SdPacket {
        /// The bytes.
        data: Vec<u8>,
        /// The sender.
        from: SocketAddr,
    },
    /// A datagram on a socket for requests and responses.
    MethodMessage {
        /// The bytes.
        data: Vec<u8>,
        /// The sender.
        from: SocketAddr,
        /// The service of the socket, where it belongs to one.
        service_key: Option<ServiceKey>,
    },
    /// A message from a TCP client.
    TcpServerMessage {
        /// The bytes.
        data: Vec<u8>,
        /// The sender.
        from: SocketAddr,
        /// The connection's slot.
        conn_key: u64,
    },
    /// A message from a TCP server.
    TcpClientMessage {
        /// The bytes.
        data: Vec<u8>,
        /// The sender.
        from: SocketAddr,
        /// The connection's slot.
        conn_key: u64,
    },
    /// The offers that are held back are due.
    OffersDue,
    /// The discovery messages that are held back are due.
    UnicastSdDue,
    /// The periodic tasks are due.
    PeriodicDue,
    /// A handle asks for something.
    Command {
        /// What it asks for.
        command: Command,
    },
    /// The TCP connection of a subscription was opened, at a local address, or not.
    Connected {
        /// The subscription.
        request: SubscribeRequest,
        /// The connection's slot.
        conn_key: u64,
        /// The outcome.
        opened: Result<SocketAddr, IoError>,
    },
    /// The socket of a subscription was opened, at a local port, or not.
    Bound {
        /// The subscription.
        request: SubscribeRequest,
        /// The local address.
        ip: IpAddr,
        /// The outcome.
        opened: Result<SocketAddr, IoError>,
    },
    /// A subscription beside the event loop has ended.
    Subscribed {
        /// What it has prepared.
        update: SubscribeStateUpdate,
    },
    /// The sockets of an offer were opened or not.
    SocketsOpened {
        /// The offer.
        offer: PendingOffer,
        /// The UDP socket, where one was asked for.
        udp: SocketOutcome,
        /// The TCP socket, where one was asked for.
        tcp: SocketOutcome,
    },
    /// A request was taken by its service or not.
    Delivered {
        /// Whether it was taken.
        delivered: bool,
        /// What its answer needs, where an answer can be sent.
        context: Option<PendingServerResponse>,
        /// Where the answer arrives.
        reply: ChannelId,
    },
    /// A service has answered a request.
    Answered {
        /// What the answer needs.
        context: PendingServerResponse,
        /// The answer, or why there is none.
        result: Result<Reply, Error>,
    },
    /// Monitors are gone.
    MonitorsLost {
        /// The monitors.
        lost: Vec<ChannelId>,
    },
}

/// The event loop's state.
pub struct EventLoop {
    /// The state of the runtime.
    pub state: RuntimeState,
    /// When the periodic tasks are due next.
    pub next_periodic_cycle_at: u128,
}

/// What an [`EventLoop`] says.
#[verifier::ext_equal]
pub struct LoopView {
    /// The state of the runtime.
    pub state: StateView,
    /// When the periodic tasks are due next.
    pub next_periodic_cycle_at: u128,
}

impl View for EventLoop {
    type V = LoopView;

    open spec fn view(&self) -> LoopView {
        LoopView { state: self.state@, next_periodic_cycle_at: self.next_periodic_cycle_at }
    }
}

impl LoopView {
    /// The state is well formed, and times can be added to that of the periodic tasks.
    pub open spec fn wf(self) -> bool {
        self.state.wf() && self.next_periodic_cycle_at <= LATEST_CYCLE
    }

    /// The event loop with another state of the runtime, and what is to be done.
    pub open spec fn with(self, r: (StateView, Seq<EffectView>)) -> (LoopView, Seq<EffectView>) {
        (LoopView { state: r.0, ..self }, r.1)
    }
}

/// When the periodic tasks are due after `now`.
pub open spec fn next_cycle(s: StateView, now: u64) -> u128 {
    (now + s.config.cyclic_offer_delay * MILLISECOND) as u128
}

fn cycle_after(state: &RuntimeState, now: u64) -> (r: u128)
    ensures
        r == next_cycle(state@, now),
        r <= LATEST_CYCLE,
{
    let delay: u64 = state.config.cyclic_offer_delay;
    now as u128 + delay as u128 * MILLISECOND
}

/// The state and the effects after actions were carried out.
pub open spec fn carried_out(r: (StateView, Seq<ActionView>)) -> (StateView, Seq<EffectView>) {
    executed_all(r.0, r.1, r.1.len() as int)
}

/// The header of a message, and what follows it.
pub open spec fn split_message(data: Seq<u8>) -> Option<(Header, Seq<u8>)> {
    match Header::parsed(data) {
        Some(h) => Some((h, data.subrange(16, data.len() as int))),
        None => None,
    }
}

/// What a datagram on the discovery socket does: nothing unless it is a discovery message.
pub open spec fn sd_packet_handled(s: StateView, data: Seq<u8>, from: SocketAddr, now: u64) -> (
    StateView,
    Seq<ActionView>,
) {
    match split_message(data) {
        Some((h, rest)) => if h.service_id == SD_SERVICE_ID && h.method_id == SD_METHOD_ID {
            sd_handled(s, h, rest, from, now)
        } else {
            (s, Seq::empty())
        },
        None => (s, Seq::empty()),
    }
}

/// Where a message came in.
#[derive(Clone, Copy, PartialEq, Eq, Structural, Debug)]
pub enum Arrival {
    /// On a UDP socket, which may belong to a service.
    Udp {
        /// The service.
        service_key: Option<ServiceKey>,
    },
    /// From a TCP client.
    TcpServer {
        /// The connection's slot.
        conn_key: u64,
    },
    /// From a TCP server.
    TcpClient {
        /// The connection's slot.
        conn_key: u64,
    },
}

/// What a message to or from a service does: nothing where it names service discovery. A
/// message from a TCP client is for the first service with its service identifier.
pub open spec fn message_handled(
    s: StateView,
    data: Seq<u8>,
    from: SocketAddr,
    arrival: Arrival,
    reply: ChannelId,
) -> (StateView, Seq<ActionView>) {
    match split_message(data) {
        Some((h, rest)) => if h.service_id == SD_SERVICE_ID {
            (s, Seq::empty())
        } else {
            match arrival {
                Arrival::Udp { service_key } => method_handled(
                    s,
                    h,
                    rest,
                    from,
                    service_key,
                    Transport::Udp,
                    0,
                    reply,
                ),
                Arrival::TcpServer { conn_key } => method_handled(
                    s,
                    h,
                    rest,
                    from,
                    match first_offer_of(s.offered, h.service_id, 0) {
                        Some(i) => Some(s.offered[i].0),
                        None => None,
                    },
                    Transport::Tcp,
                    conn_key,
                    reply,
                ),
                Arrival::TcpClient { conn_key } => method_handled(
                    s,
                    h,
                    rest,
                    from,
                    None,
                    Transport::Udp,
                    conn_key,
                    reply,
                ),
            }
        },
        None => (s, Seq::empty()),
    }
}

/// The answer to a request, as it is sent: a service that refuses chooses the return code, and
/// one that fails to answer is answered for with return code 1; neither has a payload.
pub open spec fn answer_bytes(
    context: PendingServerResponse,
    result: Result<Reply, Error>,
) -> Seq<u8> {
    let (code, payload, uses_exception) = match result {
        Ok(Reply::Payload(payload)) => (0x00u8, content(payload), false),
        Ok(Reply::Refused(error)) => (error.raw(), Seq::empty(), context.uses_exception),
        Err(_) => (0x01u8, Seq::empty(), context.uses_exception),
    };
    response_bytes(
        context.service_id,
        context.method_id,
        context.client_id,
        context.session_id,
        context.interface_version,
        code,
        payload,
        uses_exception,
    )
}

/// An answer can be sent.
pub open spec fn answer_fits(result: Result<Reply, Error>) -> bool {
    match result {
        Ok(Reply::Payload(payload)) => payload_fits(content(payload).len() as int),
        _ => true,
    }
}

fn error_answer(context: &PendingServerResponse, code: u8) -> (r: bytes::Bytes)
    ensures
        content(r) == response_bytes(
            context.service_id,
            context.method_id,
            context.client_id,
            context.session_id,
            context.interface_version,
            code,
            Seq::empty(),
            context.uses_exception,
        ),
{
    let payload: Vec<u8> = Vec::new();
    assert(payload@ =~= Seq::<u8>::empty());
    build_response(
        context.service_id,
        context.method_id,
        context.client_id,
        context.session_id,
        context.interface_version,
        code,
        payload.as_slice(),
        context.uses_exception,
    )
}

/// The answer to a request, as it is sent; `None` where its payload is too long.
pub fn answer(context: &PendingServerResponse, result: &Result<Reply, Error>) -> (r: Option<
    bytes::Bytes,
>)
    ensures
        match r {
            Some(data) => answer_fits(*result) && content(data) == answer_bytes(*context, *result),
            None => !answer_fits(*result),
        },
{
    match result {
        Ok(Reply::Payload(payload)) => {
            if !can_be_sent(payload) {
                return None;
            }
            Some(
                build_response(
                    context.service_id,
                    context.method_id,
                    context.client_id,
                    context.session_id,
                    context.interface_version,
                    0x00,
                    as_slice(payload),
                    false,
                ),
            )
        },
        Ok(Reply::Refused(error)) => Some(error_answer(context, error.as_u8())),
        Err(_) => Some(error_answer(context, 0x01)),
    }
}

/// The effects of the last step of a runtime: its offers are withdrawn.
pub open spec fn shutdown_effects(s: StateView) -> (StateView, Seq<EffectView>) {
    if s.offered.len() > 0 {
        (
            s.multicast_session_used(),
            seq![
                EffectView::SendSd {
                    data: stop_offers_message(s).bytes(s.multicast_session_id),
                    target: s.config.multicast_target(),
                },
                EffectView::Stop,
            ],
        )
    } else {
        (s, seq![EffectView::Stop])
    }
}

/// What a subscription needs, as an effect.
pub open spec fn step_effects(step: StepView) -> Seq<EffectView> {
    match step {
        StepView::Done => Seq::empty(),
        StepView::ConnectTcp { endpoint, conn_key, local_port, request } => seq![
            EffectView::Connect { endpoint, conn_key, local_port, request },
        ],
        StepView::BindUdp { ip, local_port, request } => seq![
            EffectView::Bind { ip, local_port, request },
        ],
    }
}

/// The state and the effects after an offer was asked for: its sockets have to be opened first,
/// unless the service instance is offered already.
pub open spec fn offer_reaction(
    s: StateView,
    offer: PendingOffer,
    offer_config: OfferConfig,
) -> (StateView, Seq<EffectView>) {
    if has_key(s.offered, offer.key()) {
        (
            s,
            seq![
                EffectView::Deliver {
                    to: offer.response,
                    message: DeliveryView::Offered(Err(ErrorView::AlreadyOffered)),
                },
            ],
        )
    } else {
        (
            s,
            seq![
                EffectView::OpenSockets {
                    udp: offer_address(s, offer_config.udp_port),
                    tcp: offer_address(s, offer_config.tcp_port),
                    offer,
                },
            ],
        )
    }
}

/// The state and the effects after a command.
pub open spec fn command_reaction(s: StateView, command: Command, now: u64) -> (
    StateView,
    Seq<EffectView>,
) {
    match command {
        Command::Shutdown => shutdown_effects(s),
        Command::Offer {
            service_id,
            instance_id,
            major_version,
            minor_version,
            offer_config,
            requests,
            response,
        } => offer_reaction(
            s,
            PendingOffer {
                service_id,
                instance_id,
                major_version,
                minor_version,
                method_config: offer_config.method_config,
                requests,
                response,
            },
            offer_config,
        ),
        Command::Subscribe {
            service_id,
            instance_id,
            major_version,
            eventgroup_ids,
            events,
            response,
            selection,
        } => {
            let key = ServiceKey::of(service_id, instance_id, major_version);
            let ids = eventgroup_ids@;
            let (t, effects) = carried_out(
                (
                    after_subscribe_command(s, key, ids, events, response, selection, now),
                    refusal_actions(response, subscribe_refusal(s, key, ids, selection)),
                ),
            );
            (
                t,
                effects + step_effects(
                    subscribe_command_step(s, key, ids, events, response, selection),
                ),
            )
        },
        _ => carried_out(command_handled(s, command, now)),
    }
}

/// The state and the actions when the sockets of an offer were opened or not.
pub open spec fn sockets_handled(
    s: StateView,
    offer: PendingOffer,
    udp: SocketOutcome,
    tcp: SocketOutcome,
    now: u64,
) -> (StateView, Seq<ActionView>) {
    let refusal = offer_refusal(s, offer.key(), udp, tcp);
    (
        match refusal {
            Some(_) => s,
            None => after_offer_command(
                s,
                offer.key(),
                new_offer(
                    offer.major_version,
                    offer.minor_version,
                    offer.method_config,
                    offer.requests,
                    udp,
                    tcp,
                    now,
                ),
                now,
            ),
        },
        seq![
            ActionView::Deliver {
                to: offer.response,
                message: DeliveryView::Offered(
                    match refusal {
                        Some(e) => Err(e),
                        None => Ok(offer.requests),
                    },
                ),
            },
        ],
    )
}

/// What the periodic tasks do when they are due: the offers that are held back are sent as
/// well.
pub open spec fn cycle_reaction(l: LoopView, now: u64) -> (LoopView, Seq<EffectView>) {
    let s = StateView { last_periodic_cycle: Some(l.next_periodic_cycle_at), ..l.state };
    let (t, first) = carried_out((after_initial_offers(s, now), initial_offer_actions(s, now)));
    let (u, second) = carried_out(
        (after_periodic(t, now), clustered(periodic_actions(t, now))),
    );
    (
        LoopView { state: u, next_periodic_cycle_at: next_cycle(l.state, now) },
        first + second,
    )
}

/// The state and the actions when the connection of a subscription was opened or not.
pub open spec fn connection_handled(
    s: StateView,
    request: RequestView,
    conn_key: u64,
    opened: Result<SocketAddr, IoError>,
    now: u64,
) -> (StateView, Seq<ActionView>) {
    (
        match opened {
            Ok(local) => after_subscription(
                s,
                request,
                local,
                false,
                conn_key,
                Transport::Tcp,
                now,
            ),
            Err(_) => s,
        },
        refusal_actions(request.response, io_refusal(opened)),
    )
}

/// The state and the actions when the socket of a subscription was opened or not.
pub open spec fn binding_handled(
    s: StateView,
    request: RequestView,
    ip: IpAddr,
    opened: Result<SocketAddr, IoError>,
    now: u64,
) -> (StateView, Seq<ActionView>) {
    (
        match opened {
            Ok(local) => after_subscription(
                s,
                request,
                SocketAddr { ip, port: local.port },
                true,
                0,
                Transport::Udp,
                now,
            ),
            Err(_) => s,
        },
        refusal_actions(request.response, io_refusal(opened)),
    )
}

/// The state and the actions when a subscription beside the event loop has ended.
pub open spec fn update_handled(s: StateView, update: StateUpdateView, now: u64) -> (
    StateView,
    Seq<ActionView>,
) {
    match update {
        StateUpdateView::Success { update } => (after_update(s, update, now), Seq::empty()),
        StateUpdateView::Failed { response, error } => (
            s,
            refusal_actions(response, Some(error)),
        ),
    }
}

/// An answer is awaited for a request that was taken and can be answered.
pub open spec fn delivery_effects(
    delivered: bool,
    context: Option<PendingServerResponse>,
    reply: ChannelId,
) -> Seq<EffectView> {
    match context {
        Some(context) => if delivered {
            seq![EffectView::AwaitAnswer { context, receiver: reply }]
        } else {
            Seq::empty()
        },
        None => Seq::empty(),
    }
}

/// An answer that can be sent is sent to its client, from the socket on which the request came.
pub open spec fn answer_effects(
    context: PendingServerResponse,
    result: Result<Reply, Error>,
) -> Seq<EffectView> {
    if answer_fits(result) {
        seq![
            EffectView::SendFromService {
                via: context.rpc_transport,
                data: answer_bytes(context, result),
                target: context.client_addr,
            },
        ]
    } else {
        Seq::empty()
    }
}

/// What the runtime does on an event; `reply` is where the answer to a request would arrive.
pub open spec fn reaction(l: LoopView, event: LoopEvent, now: u64, reply: ChannelId) -> (
    LoopView,
    Seq<EffectView>,
) {
    let s = l.state;
    match event {
        LoopEvent::SdPacket { data, from } => l.with(
            carried_out(sd_packet_handled(s, data@, from, now)),
        ),
        LoopEvent::MethodMessage { data, from, service_key } => l.with(
            carried_out(message_handled(s, data@, from, Arrival::Udp { service_key }, reply)),
        ),
        LoopEvent::TcpServerMessage { data, from, conn_key } => l.with(
            carried_out(message_handled(s, data@, from, Arrival::TcpServer { conn_key }, reply)),
        ),
        LoopEvent::TcpClientMessage { data, from, conn_key } => l.with(
            carried_out(message_handled(s, data@, from, Arrival::TcpClient { conn_key }, reply)),
        ),
        LoopEvent::OffersDue => l.with(
            carried_out((after_initial_offers(s, now), initial_offer_actions(s, now))),
        ),
        LoopEvent::UnicastSdDue => l.with(
            carried_out(
                (
                    StateView {
                        pending_unicast_sd: Seq::empty(),
                        pending_unicast_sd_deadline: None,
                        ..s
                    },
                    clustered(s.pending_unicast_sd),
                ),
            ),
        ),
        LoopEvent::PeriodicDue => cycle_reaction(l, now),
        LoopEvent::Command { command } => l.with(command_reaction(s, command, now)),
        LoopEvent::Connected { request, conn_key, opened } => l.with(
            carried_out(connection_handled(s, request@, conn_key, opened, now)),
        ),
        LoopEvent::Bound { request, ip, opened } => l.with(
            carried_out(binding_handled(s, request@, ip, opened, now)),
        ),
        LoopEvent::Subscribed { update } => l.with(
            carried_out(update_handled(s, update@, now)),
        ),
        LoopEvent::SocketsOpened { offer, udp, tcp } => l.with(
            carried_out(sockets_handled(s, offer, udp, tcp, now)),
        ),
        LoopEvent::Delivered { delivered, context, reply } => (
            l,
            delivery_effects(delivered, context, reply),
        ),
        LoopEvent::Answered { context, result } => (l, answer_effects(context, result)),
        LoopEvent::MonitorsLost { lost } => l.with(
            (StateView { sd_monitors: s.sd_monitors.filter(not_lost(lost@)), ..s }, Seq::empty()),
        ),
    }
}

/// An offer of a service that is not offered yet needs ports that exist; every other event can
/// be reacted to.
pub open spec fn can_react(s: StateView, event: LoopEvent) -> bool {
    match event {
        LoopEvent::Command {
            command: Command::Offer { service_id, instance_id, major_version, offer_config, .. },
        } => has_key(s.offered, ServiceKey::of(service_id, instance_id, major_version))
            || offer_ports_fit(s, offer_config),
        _ => true,
    }
}

fn carry_out(actions: Option<Vec<Action>>, state: &mut RuntimeState) -> (effects: Vec<Effect>)
    requires
        old(state)@.wf(),
    ensures
        (final(state)@, effect_views(effects@)) == carried_out((old(state)@, given(actions))),
        final(state)@.wf(),
{
    let mut effects: Vec<Effect> = Vec::new();
    assert(effect_views(effects@) =~= Seq::<EffectView>::empty());
    if let Some(actions) = actions {
        execute_actions(actions, state, &mut effects);
        proof {
            let done = carried_out((old(state)@, views(actions@))).1;
            assert(Seq::<EffectView>::empty() + done =~= done);
        }
    }
    effects
}

fn carry_out_all(actions: Vec<Action>, state: &mut RuntimeState) -> (effects: Vec<Effect>)
    requires
        old(state)@.wf(),
    ensures
        (final(state)@, effect_views(effects@)) == carried_out((old(state)@, views(actions@))),
        final(state)@.wf(),
{
    carry_out(Some(actions), state)
}

fn no_actions() -> (actions: Vec<Action>)
    ensures
        views(actions@) == Seq::<ActionView>::empty(),
{
    let actions: Vec<Action> = Vec::new();
    assert(views(actions@) =~= Seq::<ActionView>::empty());
    actions
}

fn no_effects() -> (effects: Vec<Effect>)
    ensures
        effect_views(effects@) == Seq::<EffectView>::empty(),
{
    let effects: Vec<Effect> = Vec::new();
    assert(effect_views(effects@) =~= Seq::<EffectView>::empty());
    effects
}

fn first_service(state: &RuntimeState, service_id: u16) -> (r: Option<ServiceKey>)
    ensures
        r == (match first_offer_of(state@.offered, service_id, 0) {
            Some(i) => Some(state@.offered[i].0),
            None => None,
        }),
{
    let mut i: usize = 0;
    while i < state.offered.len()
        invariant
            0 <= i <= state@.offered.len(),
            first_offer_of(state@.offered, service_id, 0) == first_offer_of(
                state@.offered,
                service_id,
                i as int,
            ),
        decreases state@.offered.len() - i,
    {
        let key = state.offered.key_at(i);
        if key.service_id == service_id {
            return Some(key);
        }
        i += 1;
    }
    None
}

fn receive_sd(data: &[u8], from: SocketAddr, state: &mut RuntimeState, now: u64) -> (r: Option<
    Vec<Action>,
>)
    requires
        old(state)@.wf(),
    ensures
        (final(state)@, given(r)) == sd_packet_handled(old(state)@, data@, from, now),
        final(state)@.wf(),
{
    let header = match Header::parse(data) {
        Some(header) => header,
        None => {
            return None;
        },
    };
    if header.service_id != SD_SERVICE_ID || header.method_id != SD_METHOD_ID {
        return None;
    }
    handle_sd_message(&header, slice_subrange(data, 16, data.len()), from, state, now)
}

fn receive_message(
    data: &[u8],
    from: SocketAddr,
    arrival: Arrival,
    state: &mut RuntimeState,
    reply: ChannelId,
) -> (r: Option<Vec<Action>>)
    requires
        old(state)@.wf(),
    ensures
        (final(state)@, given(r)) == message_handled(old(state)@, data@, from, arrival, reply),
        final(state)@.wf(),
{
    let header = match Header::parse(data) {
        Some(header) => header,
        None => {
            return None;
        },
    };
    if header.service_id == SD_SERVICE_ID {
        return None;
    }
    let rest = slice_subrange(data, 16, data.len());
    match arrival {
        Arrival::Udp { service_key } => handle_method_message(
            &header,
            rest,
            from,
            state,
            service_key,
            Transport::Udp,
            0,
            reply,
        ),
        Arrival::TcpServer { conn_key } => {
            let service_key = first_service(state, header.service_id);
            handle_method_message(
                &header,
                rest,
                from,
                state,
                service_key,
                Transport::Tcp,
                conn_key,
                reply,
            )
        },
        Arrival::TcpClient { conn_key } => handle_method_message(
            &header,
            rest,
            from,
            state,
            None,
            Transport::Udp,
            conn_key,
            reply,
        ),
    }
}

fn shut_down(state: &mut RuntimeState) -> (effects: Vec<Effect>)
    requires
        old(state)@.wf(),
    ensures
        (final(state)@, effect_views(effects@)) == shutdown_effects(old(state)@),
        final(state)@.wf(),
{
    let ghost s = state@;
    let mut effects = no_effects();
    if let Some((data, target)) = stop_offers(state) {
        push_effect(&mut effects, Effect::SendSd { data, target });
    }
    push_effect(&mut effects, Effect::Stop);
    assert(effect_views(effects@) =~= shutdown_effects(s).1);
    effects
}

fn react_to_offer(offer: PendingOffer, offer_config: &OfferConfig, state: &RuntimeState) -> (effects:
    Vec<Effect>)
    requires
        has_key(state@.offered, offer.key()) || offer_ports_fit(state@, *offer_config),
    ensures
        (state@, effect_views(effects@)) == offer_reaction(state@, offer, *offer_config),
{
    let mut effects = no_effects();
    let key = ServiceKey::new(offer.service_id, offer.instance_id, offer.major_version);
    if state.offered.contains(&key) {
        push_effect(
            &mut effects,
            Effect::Deliver {
                to: offer.response,
                message: Delivery::Offered(Err(Error::AlreadyOffered)),
            },
        );
    } else {
        let (udp, tcp) = offer_addresses(state, offer_config);
        push_effect(&mut effects, Effect::OpenSockets { udp, tcp, offer });
    }
    assert(effect_views(effects@) =~= offer_reaction(state@, offer, *offer_config).1);
    effects
}

fn react_to_subscribe(
    service_id: ServiceId,
    instance_id: InstanceId,
    major_version: u8,
    eventgroup_ids: Vec<u16>,
    events: ChannelId,
    response: ChannelId,
    selection: Option<TransportSelection>,
    state: &mut RuntimeState,
    now: u64,
) -> (effects: Vec<Effect>)
    requires
        old(state)@.wf(),
    ensures
        (final(state)@, effect_views(effects@)) == command_reaction(
            old(state)@,
            Command::Subscribe {
                service_id,
                instance_id,
                major_version,
                eventgroup_ids,
                events,
                response,
                selection,
            },
            now,
        ),
        final(state)@.wf(),
{
    let ghost s = state@;
    let ghost key = ServiceKey::of(service_id, instance_id, major_version);
    let ghost ids = eventgroup_ids@;
    let mut actions = no_actions();
    let step = handle_subscribe_command(
        service_id,
        instance_id,
        major_version,
        eventgroup_ids,
        events,
        response,
        selection,
        state,
        &mut actions,
        now,
    );
    let ghost refused = refusal_actions(response, subscribe_refusal(s, key, ids, selection));
    assert(Seq::<ActionView>::empty() + refused =~= refused);
    let mut effects = carry_out_all(actions, state);
    let ghost before = effect_views(effects@);
    match step {
        SubscribeStep::Done => {},
        SubscribeStep::ConnectTcp { endpoint, conn_key, local_port, request } => {
            push_effect(
                &mut effects,
                Effect::Connect { endpoint, conn_key, local_port, request },
            );
        },
        SubscribeStep::BindUdp { ip, local_port, request } => {
            push_effect(&mut effects, Effect::Bind { ip, local_port, request });
        },
    }
    assert(effect_views(effects@) =~= before + step_effects(step@));
    effects
}

fn react_to_command(command: Command, state: &mut RuntimeState, now: u64) -> (effects: Vec<Effect>)
    requires
        old(state)@.wf(),
        can_react(old(state)@, LoopEvent::Command { command }),
    ensures
        (final(state)@, effect_views(effects@)) == command_reaction(old(state)@, command, now),
        final(state)@.wf(),
{
    match command {
        Command::Shutdown => shut_down(state),
        Command::Offer {
            service_id,
            instance_id,
            major_version,
            minor_version,
            offer_config,
            requests,
            response,
        } => {
            let config = OfferConfig {
                tcp_port: offer_config.tcp_port,
                udp_port: offer_config.udp_port,
                method_config: MethodConfig::new(),
            };
            let offer = PendingOffer {
                service_id,
                instance_id,
                major_version,
                minor_version,
                method_config: offer_config.method_config,
                requests,
                response,
            };
            react_to_offer(offer, &config, state)
        },
        Command::Subscribe {
            service_id,
            instance_id,
            major_version,
            eventgroup_ids,
            events,
            response,
            selection,
        } => react_to_subscribe(
            service_id,
            instance_id,
            major_version,
            eventgroup_ids,
            events,
            response,
            selection,
            state,
            now,
        ),
        _ => {
            let actions = handle_command(command, state, now);
            carry_out(actions, state)
        },
    }
}

fn react_to_connection(
    request: SubscribeRequest,
    conn_key: u64,
    opened: Result<SocketAddr, IoError>,
    state: &mut RuntimeState,
    now: u64,
) -> (effects: Vec<Effect>)
    requires
        old(state)@.wf(),
    ensures
        (final(state)@, effect_views(effects@)) == carried_out(
            connection_handled(old(state)@, request@, conn_key, opened, now),
        ),
        final(state)@.wf(),
{
    let mut actions = no_actions();
    resume_connected(request, conn_key, opened, state, &mut actions, now);
    let ghost refused = refusal_actions(request.response, io_refusal(opened));
    assert(Seq::<ActionView>::empty() + refused =~= refused);
    carry_out_all(actions, state)
}

fn react_to_binding(
    request: SubscribeRequest,
    ip: IpAddr,
    opened: Result<SocketAddr, IoError>,
    state: &mut RuntimeState,
    now: u64,
) -> (effects: Vec<Effect>)
    requires
        old(state)@.wf(),
    ensures
        (final(state)@, effect_views(effects@)) == carried_out(
            binding_handled(old(state)@, request@, ip, opened, now),
        ),
        final(state)@.wf(),
{
    let mut actions = no_actions();
    resume_bound(request, ip, opened, state, &mut actions, now);
    let ghost refused = refusal_actions(request.response, io_refusal(opened));
    assert(Seq::<ActionView>::empty() + refused =~= refused);
    carry_out_all(actions, state)
}

fn react_to_update(update: SubscribeStateUpdate, state: &mut RuntimeState, now: u64) -> (effects: Vec<
    Effect,
>)
    requires
        old(state)@.wf(),
    ensures
        (final(state)@, effect_views(effects@)) == carried_out(
            update_handled(old(state)@, update@, now),
        ),
        final(state)@.wf(),
{
    let ghost s = state@;
    let mut actions = no_actions();
    apply_subscribe_update(update, state, &mut actions, now);
    assert(views(actions@) =~= update_handled(s, update@, now).1);
    carry_out_all(actions, state)
}

fn react_to_sockets(
    offer: PendingOffer,
    udp: SocketOutcome,
    tcp: SocketOutcome,
    state: &mut RuntimeState,
    now: u64,
) -> (effects: Vec<Effect>)
    requires
        old(state)@.wf(),
    ensures
        (final(state)@, effect_views(effects@)) == carried_out(
            sockets_handled(old(state)@, offer, udp, tcp, now),
        ),
        final(state)@.wf(),
{
    let ghost s = state@;
    let mut actions = no_actions();
    handle_offer_command(
        offer.service_id,
        offer.instance_id,
        offer.major_version,
        offer.minor_version,
        offer.method_config,
        offer.requests,
        offer.response,
        udp,
        tcp,
        state,
        &mut actions,
        now,
    );
    assert(views(actions@) =~= sockets_handled(s, offer, udp, tcp, now).1);
    carry_out_all(actions, state)
}

fn react_to_delivery(
    delivered: bool,
    context: Option<PendingServerResponse>,
    reply: ChannelId,
    state: &mut RuntimeState,
) -> (effects: Vec<Effect>)
    requires
        old(state)@.wf(),
    ensures
        final(state)@ == old(state)@,
        effect_views(effects@) == delivery_effects(delivered, context, reply),
{
    let ghost s = state@;
    let mut actions = no_actions();
    request_delivered(delivered, context, reply, &mut actions);
    let ghost acts = views(actions@);
    let effects = carry_out_all(actions, state);
    proof {
        reveal_with_fuel(executed_all, 2);
        assert(effect_views(effects@) =~= delivery_effects(delivered, context, reply));
    }
    effects
}

fn react_to_answer(context: PendingServerResponse, result: &Result<Reply, Error>) -> (effects: Vec<
    Effect,
>)
    ensures
        effect_views(effects@) == answer_effects(context, *result),
{
    let mut effects = no_effects();
    if let Some(data) = answer(&context, result) {
        push_effect(
            &mut effects,
            Effect::SendFromService {
                via: context.rpc_transport,
                data,
                target: context.client_addr,
            },
        );
    }
    assert(effect_views(effects@) =~= answer_effects(context, *result));
    effects
}

impl EventLoop {
    /// The event loop of a runtime that starts now.
    pub fn new(state: RuntimeState, now: u64) -> (r: Self)
        requires
            state@.wf(),
        ensures
            r@ == (LoopView {
                state: StateView {
                    last_periodic_cycle: Some(next_cycle(state@, now)),
                    ..state@
                },
                next_periodic_cycle_at: next_cycle(state@, now),
            }),
            r@.wf(),
    {
        let ghost s = state@;
        let mut state = state;
        let next: u128 = cycle_after(&state, now);
        state.last_periodic_cycle = Some(next);
        assert(state@ =~= (StateView { last_periodic_cycle: Some(next), ..s }));
        EventLoop { state, next_periodic_cycle_at: next }
    }

    fn run_cycle(&mut self, now: u64) -> (effects: Vec<Effect>)
        requires
            old(self)@.wf(),
        ensures
            (final(self)@, effect_views(effects@)) == cycle_reaction(old(self)@, now),
            final(self)@.wf(),
    {
        let ghost l = self@;
        self.state.last_periodic_cycle = Some(self.next_periodic_cycle_at);
        let ghost s = StateView {
            last_periodic_cycle: Some(l.next_periodic_cycle_at),
            ..l.state
        };
        assert(self.state@ =~= s);
        self.next_periodic_cycle_at = cycle_after(&self.state, now);
        let first = flush_pending_initial_offers(&mut self.state, now);
        let mut effects = carry_out(first, &mut self.state);
        let ghost before = effect_views(effects@);
        let second = handle_periodic(&mut self.state, now);
        let ghost t = self.state@;
        let ghost acts = given(second);
        assert(before + Seq::<EffectView>::empty() =~= before);
        if let Some(second) = second {
            execute_actions(second, &mut self.state, &mut effects);
        }
        assert(effect_views(effects@) =~= before + carried_out((t, acts)).1);
        assert(self@ =~= cycle_reaction(l, now).0);
        effects
    }

    /// Reacts to an event; the result is what is left to do. `reply` is where the answer to
    /// a request would arrive.
    pub fn react(&mut self, event: LoopEvent, now: u64, reply: ChannelId) -> (effects: Vec<Effect>)
        requires
            old(self)@.wf(),
            can_react(old(self)@.state, event),
        ensures
            (final(self)@, effect_views(effects@)) == reaction(old(self)@, event, now, reply),
            final(self)@.wf(),
    {
        match event {
            LoopEvent::SdPacket { data, from } => {
                let r = receive_sd(data.as_slice(), from, &mut self.state, now);
                carry_out(r, &mut self.state)
            },
            LoopEvent::MethodMessage { data, from, service_key } => {
                let arrival = Arrival::Udp { service_key };
                let r = receive_message(data.as_slice(), from, arrival, &mut self.state, reply);
                carry_out(r, &mut self.state)
            },
            LoopEvent::TcpServerMessage { data, from, conn_key } => {
                let arrival = Arrival::TcpServer { conn_key };
                let r = receive_message(data.as_slice(), from, arrival, &mut self.state, reply);
                carry_out(r, &mut self.state)
            },
            LoopEvent::TcpClientMessage { data, from, conn_key } => {
                let arrival = Arrival::TcpClient { conn_key };
                let r = receive_message(data.as_slice(), from, arrival, &mut self.state, reply);
                carry_out(r, &mut self.state)
            },
            LoopEvent::OffersDue => {
                let r = flush_pending_initial_offers(&mut self.state, now);
                carry_out(r, &mut self.state)
            },
            LoopEvent::UnicastSdDue => {
                let r = self.state.flush_pending_unicast_sd();
                carry_out_all(r, &mut self.state)
            },
            LoopEvent::PeriodicDue => self.run_cycle(now),
            LoopEvent::Command { command } => react_to_command(command, &mut self.state, now),
            LoopEvent::Connected { request, conn_key, opened } => react_to_connection(
                request,
                conn_key,
                opened,
                &mut self.state,
                now,
            ),
            LoopEvent::Bound { request, ip, opened } => react_to_binding(
                request,
                ip,
                opened,
                &mut self.state,
                now,
            ),
            LoopEvent::Subscribed { update } => react_to_update(update, &mut self.state, now),
            LoopEvent::SocketsOpened { offer, udp, tcp } => react_to_sockets(
                offer,
                udp,
                tcp,
                &mut self.state,
                now,
            ),
            LoopEvent::Delivered { delivered, context, reply } => react_to_delivery(
                delivered,
                context,
                reply,
                &mut self.state,
            ),
            LoopEvent::Answered { context, result } => react_to_answer(context, &result),
            LoopEvent::MonitorsLost { lost } => {
                forget_monitors(&lost, &mut self.state);
                no_effects()
            },
        }
    }
}

} // verus!
