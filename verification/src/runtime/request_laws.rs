//! What holds of calls and of requests without answer, from the command of a handle to the
//! service, and back: told by what the messages say when they are read.

use crate::buffer::content;
use crate::config::Transport;
use crate::error::Error;
use crate::ids::{return_code_of, ServiceId};
use crate::message::{ChannelId, DeliveryView, Reply, ResponseView, ServiceRequestView};
use crate::net::SocketAddr;
use crate::runtime::action::{ActionView, PendingServerResponse};
use crate::runtime::command::Command;
use crate::runtime::event_loop::{
    carried_out, message_handled, reaction, split_message, Arrival, LoopEvent, LoopView,
};
use crate::runtime::execute::EffectView;
use crate::runtime::reading::{lemma_one_executed, lemma_plain_command};
use crate::runtime::rpc::{payload_fits, rpc_header};
use crate::runtime::state::{CallKey, OfferedService, PendingCall, ServiceKey, StateView};
use crate::table::{has_key, lemma_put, lemma_without, lookup, without};
use crate::wire::{header_round_trip, Header, MessageType};
use vstd::prelude::*;

verus! {

/// The bytes hold one whole message of this protocol, with this header and payload.
pub open spec fn says(data: Seq<u8>, h: Header, payload: Seq<u8>) -> bool {
    &&& split_message(data) == Some((h, payload))
    &&& h.protocol_version == 1
    &&& h.length == payload.len() + 8
}

/// The event that a message arrives.
pub open spec fn arriving(arrival: Arrival, data: Vec<u8>, from: SocketAddr) -> LoopEvent {
    match arrival {
        Arrival::Udp { service_key } => LoopEvent::MethodMessage { data, from, service_key },
        Arrival::TcpServer { conn_key } => LoopEvent::TcpServerMessage { data, from, conn_key },
        Arrival::TcpClient { conn_key } => LoopEvent::TcpClientMessage { data, from, conn_key },
    }
}

pub proof fn lemma_arriving(
    l: LoopView,
    arrival: Arrival,
    data: Vec<u8>,
    from: SocketAddr,
    now: u64,
    reply: ChannelId,
)
    ensures
        reaction(l, arriving(arrival, data, from), now, reply) == l.with(
            carried_out(message_handled(l.state, data@, from, arrival, reply)),
        ),
{
}

/// The bytes that are sent to another host.
pub open spec fn bytes_sent(e: EffectView) -> Seq<u8> {
    match e {
        EffectView::SendTcp { data, .. } => data,
        EffectView::SendUdp { data, .. } => data,
        EffectView::SendFromService { data, .. } => data,
        EffectView::SendSd { data, .. } => data,
        _ => Seq::empty(),
    }
}

/// Bytes are sent from the request socket, or on the connection for requests.
pub open spec fn sent_by_client(
    s: StateView,
    e: EffectView,
    target: SocketAddr,
    transport: Transport,
) -> bool {
    match transport {
        Transport::Udp => e == (EffectView::SendUdp {
            via: s.client_rpc_tx,
            data: bytes_sent(e),
            target,
        }),
        Transport::Tcp => e == (EffectView::SendTcp { data: bytes_sent(e), target }),
    }
}

/// A message of this header and payload says them.
pub proof fn lemma_says(h: Header, payload: Seq<u8>)
    requires
        payload.len() + 8 <= u32::MAX,
        h == rpc_header(
            h.service_id,
            h.method_id,
            h.client_id,
            h.session_id,
            h.interface_version,
            h.message_type,
            h.return_code,
            payload.len() as int,
        ),
    ensures
        says(h.bytes() + payload, h, payload),
{
    let data = h.bytes() + payload;
    crate::runtime::rpc::message_round_trip(h, payload);
    header_round_trip(h, payload);
    assert(data.subrange(16, data.len() as int) =~= payload);
}

/// A call is sent to its target over its transport: a request for the service and the method with
/// the payload, under this client and a session of its own. The response is awaited under that
/// session; other calls go on waiting, and the next call has another session.
pub proof fn a_call_is_sent(
    l: LoopView,
    service_id: ServiceId,
    method_id: u16,
    payload: bytes::Bytes,
    response: ChannelId,
    target_endpoint: SocketAddr,
    target_transport: Transport,
    now: u64,
    reply: ChannelId,
    other: CallKey,
)
    requires
        l.wf(),
        payload_fits(content(payload).len() as int),
        content(payload).len() + 8 <= u32::MAX,
    ensures
        ({
            let command = Command::Call {
                service_id,
                method_id,
                payload,
                response,
                target_endpoint,
                target_transport,
            };
            let (after, effects) = reaction(l, LoopEvent::Command { command }, now, reply);
            let s = l.state;
            let t = after.state;
            let (h, _) = split_message(bytes_sent(effects[0]))->0;
            let made = CallKey { client_id: s.client_id, session_id: s.payload_session_id };
            &&& effects.len() == 1
            &&& sent_by_client(s, effects[0], target_endpoint, target_transport)
            &&& says(bytes_sent(effects[0]), h, content(payload))
            &&& h.service_id == service_id@
            &&& h.method_id == method_id
            &&& h.message_type is Request
            &&& h.return_code == 0
            &&& h.interface_version == 1
            &&& (h.client_id, h.session_id) == (made.client_id, made.session_id)
            &&& lookup(t.pending_calls, made) == Some(PendingCall { response })
            &&& other != made ==> lookup(t.pending_calls, other) == lookup(s.pending_calls, other)
            &&& t.payload_session_id != s.payload_session_id
            &&& t.payload_session_id != 0
            &&& t == (StateView {
                pending_calls: t.pending_calls,
                payload_session_id: t.payload_session_id,
                ..s
            })
            &&& after.wf()
        }),
{
    let s = l.state;
    let command = Command::Call {
        service_id,
        method_id,
        payload,
        response,
        target_endpoint,
        target_transport,
    };
    lemma_plain_command(l, command, now, reply);
    let h = rpc_header(
        service_id@,
        method_id,
        s.client_id,
        s.payload_session_id,
        1,
        MessageType::Request,
        0,
        content(payload).len() as int,
    );
    lemma_says(h, content(payload));
    let t = crate::runtime::client::after_call(s, response);
    lemma_put(
        s.pending_calls,
        CallKey { client_id: s.client_id, session_id: s.payload_session_id },
        PendingCall { response },
    );
    lemma_one_executed(
        t,
        ActionView::SendClientMessage {
            data: h.bytes() + content(payload),
            target: target_endpoint,
            transport: target_transport,
        },
    );
}

/// A request without answer is sent to its target over its transport, with the service, the
/// method and the payload; nothing is awaited and nothing changes.
pub proof fn a_request_without_answer_is_sent(
    l: LoopView,
    service_id: ServiceId,
    method_id: u16,
    payload: bytes::Bytes,
    target_endpoint: SocketAddr,
    target_transport: Transport,
    now: u64,
    reply: ChannelId,
)
    requires
        payload_fits(content(payload).len() as int),
        content(payload).len() + 8 <= u32::MAX,
    ensures
        ({
            let command = Command::FireAndForget {
                service_id,
                method_id,
                payload,
                target_endpoint,
                target_transport,
            };
            let (after, effects) = reaction(l, LoopEvent::Command { command }, now, reply);
            let (h, _) = split_message(bytes_sent(effects[0]))->0;
            &&& after == l
            &&& effects.len() == 1
            &&& sent_by_client(l.state, effects[0], target_endpoint, target_transport)
            &&& says(bytes_sent(effects[0]), h, content(payload))
            &&& h.service_id == service_id@
            &&& h.method_id == method_id
            &&& h.client_id == l.state.client_id
            &&& h.message_type is RequestNoReturn
            &&& h.return_code == 0
            &&& h.interface_version == 1
        }),
{
    let s = l.state;
    let command = Command::FireAndForget {
        service_id,
        method_id,
        payload,
        target_endpoint,
        target_transport,
    };
    lemma_plain_command(l, command, now, reply);
    let h = rpc_header(
        service_id@,
        method_id,
        s.client_id,
        0,
        1,
        MessageType::RequestNoReturn,
        0,
        content(payload).len() as int,
    );
    lemma_says(h, content(payload));
    lemma_one_executed(
        s,
        ActionView::SendClientMessage {
            data: h.bytes() + content(payload),
            target: target_endpoint,
            transport: target_transport,
        },
    );
}

/// A message arrives where a service is offered: on the socket of the service, or, over TCP,
/// where no service under the same identifier was offered before it.
pub open spec fn offered_where(
    server: StateView,
    arrival: Arrival,
    key: ServiceKey,
    offered: OfferedService,
) -> bool {
    match arrival {
        Arrival::Udp { service_key } => service_key == Some(key) && lookup(server.offered, key)
            == Some(offered),
        Arrival::TcpServer { .. } => exists|i: int|
            {
                &&& 0 <= i < server.offered.len()
                &&& #[trigger] server.offered[i] == (key, offered)
                &&& forall|j: int|
                    0 <= j < i ==> (#[trigger] server.offered[j]).0.service_id != key.service_id
            },
        Arrival::TcpClient { .. } => false,
    }
}

/// The transport on which a message arrives.
pub open spec fn arrives_over(arrival: Arrival) -> Transport {
    match arrival {
        Arrival::Udp { .. } => Transport::Udp,
        _ => Transport::Tcp,
    }
}

proof fn lemma_first_offer(
    offered: Seq<(ServiceKey, OfferedService)>,
    service_id: u16,
    i: int,
    k: int,
)
    requires
        0 <= i <= k < offered.len(),
        offered[k].0.service_id == service_id,
        forall|j: int| 0 <= j < k ==> (#[trigger] offered[j]).0.service_id != service_id,
    ensures
        crate::runtime::server::first_offer_of(offered, service_id, i) == Some(k),
    decreases k - i,
{
    if i < k {
        assert(offered[i].0.service_id != service_id);
        lemma_first_offer(offered, service_id, i + 1, k);
    }
}

proof fn lemma_addressed(
    server: StateView,
    arrival: Arrival,
    key: ServiceKey,
    offered: OfferedService,
    h: Header,
)
    requires
        server.wf(),
        h.service_id == key.service_id,
        offered_where(server, arrival, key, offered),
    ensures
        ({
            let socket = match arrival {
                Arrival::Udp { service_key } => service_key,
                _ => match crate::runtime::server::first_offer_of(
                    server.offered,
                    h.service_id,
                    0,
                ) {
                    Some(i) => Some(server.offered[i].0),
                    None => None,
                },
            };
            crate::runtime::server::addressee(server, h, socket) == Some((key, offered))
        }),
{
    if arrival is TcpServer {
        let i = choose|i: int|
            {
                &&& 0 <= i < server.offered.len()
                &&& #[trigger] server.offered[i] == (key, offered)
                &&& forall|j: int|
                    0 <= j < i ==> (#[trigger] server.offered[j]).0.service_id != key.service_id
            };
        lemma_first_offer(server.offered, h.service_id, 0, i);
        crate::table::lemma_lookup_at(server.offered, i);
    }
}

/// A request reaches the service at whose socket it arrives: the service gets the method, the
/// payload and the caller, once, and what is kept for the answer holds the request's identifiers,
/// the caller's address and the socket. Nothing changes.
pub proof fn a_request_is_delivered(
    server: LoopView,
    data: Vec<u8>,
    h: Header,
    payload: Seq<u8>,
    from: SocketAddr,
    arrival: Arrival,
    now: u64,
    reply: ChannelId,
    key: ServiceKey,
    offered: OfferedService,
)
    requires
        server.wf(),
        says(data@, h, payload),
        h.message_type is Request,
        h.service_id == key.service_id,
        h.service_id != 0xFFFF,
        h.method_id < 0x8000,
        offered_where(server.state, arrival, key, offered),
    ensures
        ({
            let (after, effects) = reaction(server, arriving(arrival, data, from), now, reply);
            let transport = arrives_over(arrival);
            let context = effects[0]->DeliverRequest_context;
            let socket = match transport {
                Transport::Udp => offered.udp_transport,
                Transport::Tcp => offered.tcp_transport,
            };
            &&& after == server
            &&& effects == seq![
                EffectView::DeliverRequest {
                    to: offered.requests_tx,
                    request: ServiceRequestView::MethodCall {
                        method_id: h.method_id,
                        payload,
                        client: from,
                        transport,
                        response: reply,
                    },
                    context,
                    reply,
                },
            ]
            &&& context == (match socket {
                Some(rpc_transport) => Some(
                    PendingServerResponse {
                        service_id: h.service_id,
                        instance_id: key.instance_id,
                        method_id: h.method_id,
                        client_id: h.client_id,
                        session_id: h.session_id,
                        interface_version: h.interface_version,
                        client_addr: from,
                        uses_exception: offered.method_config@.contains(h.method_id),
                        rpc_transport,
                    },
                ),
                None => None,
            })
        }),
{
    let s = server.state;
    lemma_arriving(server, arrival, data, from, now, reply);
    lemma_addressed(s, arrival, key, offered, h);
    assert(payload.subrange(0, h.payload_len()) =~= payload);
    let (t, actions) = message_handled(s, data@, from, arrival, reply);
    assert(t == s);
    assert(actions.len() == 1);
    assert(actions =~= seq![actions[0]]);
    lemma_one_executed(s, actions[0]);
}

/// A request without answer reaches the service at whose socket it arrives: the service gets the
/// method, the payload and the sender, once. Nothing is awaited and nothing changes.
pub proof fn a_request_without_answer_is_delivered(
    server: LoopView,
    data: Vec<u8>,
    h: Header,
    payload: Seq<u8>,
    from: SocketAddr,
    arrival: Arrival,
    now: u64,
    reply: ChannelId,
    key: ServiceKey,
    offered: OfferedService,
)
    requires
        server.wf(),
        says(data@, h, payload),
        h.message_type is RequestNoReturn,
        h.service_id == key.service_id,
        h.service_id != 0xFFFF,
        offered_where(server.state, arrival, key, offered),
    ensures
        reaction(server, arriving(arrival, data, from), now, reply) == (
            server,
            seq![
                EffectView::Deliver {
                    to: offered.requests_tx,
                    message: DeliveryView::Request(
                        ServiceRequestView::FireForget {
                            method_id: h.method_id,
                            payload,
                            client: from,
                            transport: Transport::Udp,
                        },
                    ),
                },
            ],
        ),
{
    let s = server.state;
    lemma_arriving(server, arrival, data, from, now, reply);
    lemma_addressed(s, arrival, key, offered, h);
    assert(payload.subrange(0, h.payload_len()) =~= payload);
    let (t, actions) = message_handled(s, data@, from, arrival, reply);
    assert(t == s);
    assert(actions.len() == 1);
    assert(actions =~= seq![actions[0]]);
    lemma_one_executed(s, actions[0]);
}

/// What one host sends without expecting an answer reaches the service of another: the bytes of
/// the request, when they arrive where the service is offered, hand the service the method, the
/// same payload and the sender, and nothing else happens there.
pub proof fn a_request_without_answer_reaches_its_service(
    client: LoopView,
    service_id: ServiceId,
    method_id: u16,
    payload: bytes::Bytes,
    target_endpoint: SocketAddr,
    target_transport: Transport,
    now: u64,
    reply: ChannelId,
    data: Vec<u8>,
    server: LoopView,
    from: SocketAddr,
    arrival: Arrival,
    later: u64,
    key: ServiceKey,
    offered: OfferedService,
)
    requires
        server.wf(),
        payload_fits(content(payload).len() as int),
        content(payload).len() + 8 <= u32::MAX,
        data@ == bytes_sent(
            reaction(
                client,
                LoopEvent::Command {
                    command: Command::FireAndForget {
                        service_id,
                        method_id,
                        payload,
                        target_endpoint,
                        target_transport,
                    },
                },
                now,
                reply,
            ).1[0],
        ),
        key.service_id == service_id@,
        service_id@ != 0xFFFF,
        offered_where(server.state, arrival, key, offered),
    ensures
        reaction(server, arriving(arrival, data, from), later, reply) == (
            server,
            seq![
                EffectView::Deliver {
                    to: offered.requests_tx,
                    message: DeliveryView::Request(
                        ServiceRequestView::FireForget {
                            method_id,
                            payload: content(payload),
                            client: from,
                            transport: Transport::Udp,
                        },
                    ),
                },
            ],
        ),
{
    a_request_without_answer_is_sent(
        client,
        service_id,
        method_id,
        payload,
        target_endpoint,
        target_transport,
        now,
        reply,
    );
    let (h, _) = split_message(data@)->0;
    a_request_without_answer_is_delivered(
        server,
        data,
        h,
        content(payload),
        from,
        arrival,
        later,
        reply,
        key,
        offered,
    );
}

/// The answer of a service, as its caller gets it.
pub open spec fn answer_given(result: Result<Reply, Error>) -> (u8, Seq<u8>) {
    match result {
        Ok(Reply::Payload(payload)) => (0x00, content(payload)),
        Ok(Reply::Refused(error)) => (error.raw(), Seq::empty()),
        Err(_) => (0x01, Seq::empty()),
    }
}

/// A request that was taken is awaited, and its answer is sent once: to the caller, from the socket
/// on which the request came, under the identifiers of the request, and with the payload and
/// return code of the answer. A failed answer is an exception exactly where the method uses them.
pub proof fn an_answer_is_sent(
    server: LoopView,
    context: PendingServerResponse,
    result: Result<Reply, Error>,
    now: u64,
    reply: ChannelId,
    receiver: ChannelId,
)
    requires
        crate::runtime::event_loop::answer_fits(result),
        answer_given(result).1.len() + 8 <= u32::MAX,
    ensures
        reaction(
            server,
            LoopEvent::Delivered { delivered: true, context: Some(context), reply: receiver },
            now,
            reply,
        ) == (server, seq![EffectView::AwaitAnswer { context, receiver }]),
        reaction(
            server,
            LoopEvent::Delivered { delivered: false, context: Some(context), reply: receiver },
            now,
            reply,
        ) == (server, Seq::<EffectView>::empty()),
        ({
            let (after, effects) = reaction(
                server,
                LoopEvent::Answered { context, result },
                now,
                reply,
            );
            let (code, payload) = answer_given(result);
            let data = bytes_sent(effects[0]);
            let (h, _) = split_message(data)->0;
            &&& after == server
            &&& effects == seq![
                EffectView::SendFromService {
                    via: context.rpc_transport,
                    data,
                    target: context.client_addr,
                },
            ]
            &&& says(data, h, payload)
            &&& (h.service_id, h.method_id) == (context.service_id, context.method_id)
            &&& (h.client_id, h.session_id) == (context.client_id, context.session_id)
            &&& h.interface_version == context.interface_version
            &&& h.return_code == code
            &&& h.message_type is Error || h.message_type is Response
            &&& h.message_type is Error <==> code != 0 && context.uses_exception && !(
            result matches Ok(Reply::Payload(_)))
        }),
{
    let (code, payload) = answer_given(result);
    let exception = context.uses_exception && !(result matches Ok(Reply::Payload(_)));
    let h = rpc_header(
        context.service_id,
        context.method_id,
        context.client_id,
        context.session_id,
        context.interface_version,
        crate::runtime::rpc::response_type(code, exception),
        code,
        payload.len() as int,
    );
    lemma_says(h, payload);
    assert(crate::runtime::event_loop::answer_bytes(context, result) == h.bytes() + payload);
    assert(crate::runtime::event_loop::answer_effects(context, result).len() == 1);
    assert(crate::runtime::event_loop::answer_effects(context, result) =~= seq![
        EffectView::SendFromService {
            via: context.rpc_transport,
            data: h.bytes() + payload,
            target: context.client_addr,
        },
    ]);
}

/// A response goes to the call that awaits it, with its return code and payload, and to no other;
/// that call then awaits nothing more. A response that nothing awaits does nothing.
pub proof fn a_response_is_delivered(
    client: LoopView,
    data: Vec<u8>,
    h: Header,
    payload: Seq<u8>,
    from: SocketAddr,
    arrival: Arrival,
    now: u64,
    reply: ChannelId,
    other: CallKey,
)
    requires
        client.wf(),
        says(data@, h, payload),
        h.message_type is Response || h.message_type is Error,
        h.service_id != 0xFFFF,
    ensures
        ({
            let (after, effects) = reaction(client, arriving(arrival, data, from), now, reply);
            let answered = CallKey { client_id: h.client_id, session_id: h.session_id };
            &&& effects == (match lookup(client.state.pending_calls, answered) {
                Some(call) => seq![
                    EffectView::Deliver {
                        to: call.response,
                        message: DeliveryView::CallResult(
                            ResponseView { return_code: return_code_of(h.return_code), payload },
                        ),
                    },
                ],
                None => Seq::<EffectView>::empty(),
            })
            &&& !has_key(after.state.pending_calls, answered)
            &&& other != answered ==> lookup(after.state.pending_calls, other) == lookup(
                client.state.pending_calls,
                other,
            )
            &&& after.state == (StateView {
                pending_calls: after.state.pending_calls,
                ..client.state
            })
        }),
{
    let s = client.state;
    lemma_arriving(client, arrival, data, from, now, reply);
    assert(payload.subrange(0, h.payload_len()) =~= payload);
    let answered = CallKey { client_id: h.client_id, session_id: h.session_id };
    lemma_without(s.pending_calls, answered);
    let t = StateView { pending_calls: without(s.pending_calls, answered), ..s };
    let (u, actions) = message_handled(s, data@, from, arrival, reply);
    assert(u == t);
    match lookup(s.pending_calls, answered) {
        Some(call) => {
            assert(actions.len() == 1);
            assert(actions =~= seq![actions[0]]);
            lemma_one_executed(t, actions[0]);
        },
        None => {
            assert(actions =~= Seq::<ActionView>::empty());
            lemma_one_executed(
                t,
                ActionView::Deliver { to: 0, message: DeliveryView::HasSubscribers(true) },
            );
        },
    }
}

/// A call comes back: what a call sends, read by the host that offers the service, reaches the
/// service with the method and the payload; and what the service's answer sends, read by the
/// caller, reaches the handle that made the call, with the answer's return code and payload.
#[verifier::rlimit(40)]
pub proof fn a_call_comes_back(
    client: LoopView,
    service_id: ServiceId,
    method_id: u16,
    payload: bytes::Bytes,
    response: ChannelId,
    target_endpoint: SocketAddr,
    target_transport: Transport,
    now: u64,
    reply: ChannelId,
    question: Vec<u8>,
    server: LoopView,
    caller: SocketAddr,
    arrival: Arrival,
    later: u64,
    receiver: ChannelId,
    key: ServiceKey,
    offered: OfferedService,
    result: Result<Reply, Error>,
    answer: Vec<u8>,
    from: SocketAddr,
    back: Arrival,
    last: u64,
)
    requires
        client.wf(),
        server.wf(),
        payload_fits(content(payload).len() as int),
        content(payload).len() + 8 <= u32::MAX,
        crate::runtime::event_loop::answer_fits(result),
        answer_given(result).1.len() + 8 <= u32::MAX,
        method_id < 0x8000,
        key.service_id == service_id@,
        service_id@ != 0xFFFF,
        offered_where(server.state, arrival, key, offered),
        arrival is Udp ==> offered.udp_transport is Some,
        arrival is TcpServer ==> offered.tcp_transport is Some,
        question@ == bytes_sent(
            reaction(
                client,
                LoopEvent::Command {
                    command: Command::Call {
                        service_id,
                        method_id,
                        payload,
                        response,
                        target_endpoint,
                        target_transport,
                    },
                },
                now,
                reply,
            ).1[0],
        ),
        answer@ == bytes_sent(
            reaction(
                server,
                LoopEvent::Answered {
                    context: reaction(
                        server,
                        arriving(arrival, question, caller),
                        later,
                        receiver,
                    ).1[0]->DeliverRequest_context->0,
                    result,
                },
                later,
                reply,
            ).1[0],
        ),
    ensures
        ({
            let (calling, _) = reaction(
                client,
                LoopEvent::Command {
                    command: Command::Call {
                        service_id,
                        method_id,
                        payload,
                        response,
                        target_endpoint,
                        target_transport,
                    },
                },
                now,
                reply,
            );
            let (_, asked) = reaction(server, arriving(arrival, question, caller), later, receiver);
            let (_, heard) = reaction(calling, arriving(back, answer, from), last, reply);
            let (code, given) = answer_given(result);
            &&& asked.len() == 1
            &&& asked[0]->DeliverRequest_to == offered.requests_tx
            &&& asked[0]->DeliverRequest_request == (ServiceRequestView::MethodCall {
                method_id,
                payload: content(payload),
                client: caller,
                transport: arrives_over(arrival),
                response: receiver,
            })
            &&& heard == seq![
                EffectView::Deliver {
                    to: response,
                    message: DeliveryView::CallResult(
                        ResponseView { return_code: return_code_of(code), payload: given },
                    ),
                },
            ]
        }),
{
    let made = CallKey {
        client_id: client.state.client_id,
        session_id: client.state.payload_session_id,
    };
    a_call_is_sent(
        client,
        service_id,
        method_id,
        payload,
        response,
        target_endpoint,
        target_transport,
        now,
        reply,
        made,
    );
    let (h, _) = split_message(question@)->0;
    a_request_is_delivered(
        server,
        question,
        h,
        content(payload),
        caller,
        arrival,
        later,
        receiver,
        key,
        offered,
    );
    let (_, asked) = reaction(server, arriving(arrival, question, caller), later, receiver);
    let context = asked[0]->DeliverRequest_context->0;
    an_answer_is_sent(server, context, result, later, reply, receiver);
    let (code, given) = answer_given(result);
    let (a, _) = split_message(answer@)->0;
    let (calling, _) = reaction(
        client,
        LoopEvent::Command {
            command: Command::Call {
                service_id,
                method_id,
                payload,
                response,
                target_endpoint,
                target_transport,
            },
        },
        now,
        reply,
    );
    a_response_is_delivered(calling, answer, a, given, from, back, last, reply, made);
}

/// No service is offered where a message arrives: its socket belongs to another service or to one
/// that is not offered any more, or nothing is offered under the identifier.
pub open spec fn offered_nowhere(server: StateView, arrival: Arrival, service_id: u16) -> bool {
    let unknown = forall|i: int|
        0 <= i < server.offered.len() ==> (#[trigger] server.offered[i]).0.service_id != service_id;
    match arrival {
        Arrival::Udp { service_key: Some(key) } => key.service_id != service_id || !has_key(
            server.offered,
            key,
        ),
        Arrival::Udp { service_key: None } => unknown,
        Arrival::TcpServer { .. } => unknown,
        Arrival::TcpClient { .. } => false,
    }
}

proof fn lemma_no_offer(offered: Seq<(ServiceKey, OfferedService)>, service_id: u16, i: int)
    requires
        0 <= i <= offered.len(),
        forall|j: int| 0 <= j < offered.len() ==> (#[trigger] offered[j]).0.service_id != service_id,
    ensures
        crate::runtime::server::first_offer_of(offered, service_id, i) is None,
    decreases offered.len() - i,
{
    if i < offered.len() {
        assert(offered[i].0.service_id != service_id);
        lemma_no_offer(offered, service_id, i + 1);
    }
}

/// A response that carries nothing but a return code, under the identifiers of its request.
pub open spec fn refuses(data: Seq<u8>, request: Header, code: u8, exception: bool) -> bool {
    let (h, _) = split_message(data)->0;
    &&& says(data, h, Seq::empty())
    &&& (h.service_id, h.method_id) == (request.service_id, request.method_id)
    &&& (h.client_id, h.session_id) == (request.client_id, request.session_id)
    &&& h.interface_version == request.interface_version
    &&& h.return_code == code
    &&& if exception {
        h.message_type is Error
    } else {
        h.message_type is Response
    }
}

proof fn lemma_refuses(request: Header, code: u8, exception: bool)
    requires
        code != 0,
    ensures
        refuses(
            crate::runtime::server::refusal_bytes(request, code, exception),
            request,
            code,
            exception,
        ),
{
    let h = rpc_header(
        request.service_id,
        request.method_id,
        request.client_id,
        request.session_id,
        request.interface_version,
        crate::runtime::rpc::response_type(code, exception),
        code,
        0,
    );
    lemma_says(h, Seq::empty());
}

/// A request for a service that is not offered where it arrives is refused to its sender, as for
/// an unknown service; a request without answer is dropped. Nothing changes.
pub proof fn a_request_for_no_service_is_refused(
    server: LoopView,
    data: Vec<u8>,
    h: Header,
    payload: Seq<u8>,
    from: SocketAddr,
    arrival: Arrival,
    now: u64,
    reply: ChannelId,
)
    requires
        says(data@, h, payload),
        h.message_type is Request || h.message_type is RequestNoReturn,
        h.service_id != 0xFFFF,
        offered_nowhere(server.state, arrival, h.service_id),
    ensures
        ({
            let (after, effects) = reaction(server, arriving(arrival, data, from), now, reply);
            &&& after == server
            &&& h.message_type is RequestNoReturn ==> effects.len() == 0
            &&& h.message_type is Request ==> {
                &&& effects.len() == 1
                &&& sent_by_client(server.state, effects[0], from, arrives_over(arrival))
                &&& refuses(bytes_sent(effects[0]), h, 0x02, false)
            }
        }),
{
    let s = server.state;
    lemma_arriving(server, arrival, data, from, now, reply);
    assert(payload.subrange(0, h.payload_len()) =~= payload);
    lemma_refuses(h, 0x02, false);
    match arrival {
        Arrival::Udp { service_key: Some(_) } => {},
        _ => {
            lemma_no_offer(s.offered, h.service_id, 0);
        },
    }
    let (t, actions) = message_handled(s, data@, from, arrival, reply);
    assert(t == s);
    let refused = ActionView::SendClientMessage {
        data: crate::runtime::server::refusal_bytes(h, 0x02, false),
        target: from,
        transport: arrives_over(arrival),
    };
    lemma_one_executed(s, refused);
    if h.message_type is Request {
        assert(actions =~= seq![refused]);
    } else {
        assert(actions =~= Seq::<ActionView>::empty());
    }
}

/// A request that names an event in place of a method never reaches a service: its sender gets a
/// refusal as of a malformed message, from the socket of the service where it has one for the
/// transport.
pub proof fn a_request_for_an_event_is_refused(
    server: LoopView,
    data: Vec<u8>,
    h: Header,
    payload: Seq<u8>,
    from: SocketAddr,
    arrival: Arrival,
    now: u64,
    reply: ChannelId,
    key: ServiceKey,
    offered: OfferedService,
)
    requires
        server.wf(),
        says(data@, h, payload),
        h.message_type is Request,
        h.service_id == key.service_id,
        h.service_id != 0xFFFF,
        h.method_id >= 0x8000,
        offered_where(server.state, arrival, key, offered),
        lookup(server.state.offered, key) == Some(offered),
    ensures
        ({
            let (after, effects) = reaction(server, arriving(arrival, data, from), now, reply);
            let socket = match arrives_over(arrival) {
                Transport::Udp => offered.udp_transport,
                Transport::Tcp => offered.tcp_transport,
            };
            &&& after == server
            &&& match socket {
                Some(via) => {
                    &&& effects == seq![
                        EffectView::SendFromService {
                            via,
                            data: bytes_sent(effects[0]),
                            target: from,
                        },
                    ]
                    &&& refuses(
                        bytes_sent(effects[0]),
                        h,
                        0x09,
                        offered.method_config@.contains(h.method_id),
                    )
                },
                None => effects.len() == 0,
            }
        }),
{
    let s = server.state;
    lemma_arriving(server, arrival, data, from, now, reply);
    lemma_addressed(s, arrival, key, offered, h);
    assert(payload.subrange(0, h.payload_len()) =~= payload);
    let exception = offered.method_config@.contains(h.method_id);
    lemma_refuses(h, 0x09, exception);
    let refused = ActionView::SendServerMessage {
        service_key: key,
        data: crate::runtime::server::refusal_bytes(h, 0x09, exception),
        target: from,
        transport: arrives_over(arrival),
    };
    lemma_one_executed(s, refused);
    let (t, actions) = message_handled(s, data@, from, arrival, reply);
    assert(t == s);
    if offered.sender(arrives_over(arrival)) is Some {
        assert(actions =~= seq![refused]);
        let via = offered.sender(arrives_over(arrival))->0;
        let (_, effects) = crate::runtime::execute::executed(s, refused);
        assert(effects =~= seq![
            EffectView::SendFromService {
                via,
                data: crate::runtime::server::refusal_bytes(h, 0x09, exception),
                target: from,
            },
        ]);
    } else {
        assert(actions =~= Seq::<ActionView>::empty());
    }
}

} // verus!
