//! What holds of handles: what a service receives of a request, which endpoint a call uses, who
//! is notified without subscription, and which channels stay open.

use crate::config::{OfferConfig, OfferedEndpoints, Transport};
use crate::handles::instance::static_targets;
use crate::handles::proxy::OfferedService;
use crate::handles::responder::{event_of, ServiceEventView};
use crate::message::{ChannelId, ClientInfo, ServiceRequestView};
use crate::net::SocketAddr;
use crate::runtime::action::RpcTransportSender;
use crate::runtime::channels::refers_to;
use crate::runtime::state::StateView;
use vstd::prelude::*;

verus! {

/// A service receives every request with valid identifiers as it was made, with its client, and
/// for a call with the place for its answer; it receives nothing of any other.
pub proof fn requests_are_received_as_made(
    id: u16,
    payload: Seq<u8>,
    address: SocketAddr,
    transport: Transport,
    response: ChannelId,
)
    ensures
        ({
            let client = ClientInfo { address, transport };
            let call = event_of(
                ServiceRequestView::MethodCall {
                    method_id: id,
                    payload,
                    client: address,
                    transport,
                    response,
                },
            );
            let fire = event_of(
                ServiceRequestView::FireForget {
                    method_id: id,
                    payload,
                    client: address,
                    transport,
                },
            );
            let subscribe = event_of(
                ServiceRequestView::Subscribe { eventgroup_id: id, client: address, transport },
            );
            let unsubscribe = event_of(
                ServiceRequestView::Unsubscribe { eventgroup_id: id, client: address, transport },
            );
            &&& id < 0x8000 ==> {
                &&& call == Some(
                    ServiceEventView::Call {
                        method: id,
                        payload,
                        client,
                        response: Some(response),
                    },
                )
                &&& fire == Some(ServiceEventView::FireForget { method: id, payload, client })
            }
            &&& id >= 0x8000 ==> call is None && fire is None
            &&& 0 < id < 0xFFFF ==> {
                &&& subscribe == Some(ServiceEventView::Subscribe { eventgroup: id, client })
                &&& unsubscribe == Some(ServiceEventView::Unsubscribe { eventgroup: id, client })
            }
            &&& id == 0 || id == 0xFFFF ==> subscribe is None && unsubscribe is None
        }),
{
}

/// A call uses an endpoint that the service offers, and over the preferred transport wherever
/// that is offered.
pub proof fn calls_prefer_their_transport(s: OfferedService)
    ensures
        ({
            let (endpoint, transport) = s.effective();
            &&& match (s.remote_endpoints, transport) {
                (OfferedEndpoints::UdpOnly(udp), Transport::Udp) => endpoint == udp,
                (OfferedEndpoints::TcpOnly(tcp), Transport::Tcp) => endpoint == tcp,
                (OfferedEndpoints::Both { udp, .. }, Transport::Udp) => endpoint == udp,
                (OfferedEndpoints::Both { tcp, .. }, Transport::Tcp) => endpoint == tcp,
                _ => false,
            }
            &&& s.remote_endpoints is Both ==> transport == s.preferred_transport
        }),
{
}

/// An offer without a transport uses the preferred one on its default port, and no other; one
/// with a transport stays as it is.
pub proof fn offers_fall_back_to_the_preferred_transport(c: OfferConfig, preferred: Transport)
    ensures
        ({
            let r = c.with_fallback(preferred);
            &&& c.udp_port is Some || c.tcp_port is Some ==> r == c
            &&& c.udp_port is None && c.tcp_port is None ==> {
                &&& preferred == Transport::Udp ==> r.udp_port == Some(0u16) && r.tcp_port is None
                &&& preferred == Transport::Tcp ==> r.tcp_port == Some(0u16) && r.udp_port is None
                &&& r.method_config == c.method_config
            }
        }),
{
}

/// Of the subscribers without subscription exactly those are notified that receive the
/// eventgroup, each once and in their order.
pub proof fn static_subscribers_are_notified(
    subscribers: Seq<(SocketAddr, Seq<u16>)>,
    eventgroup: u16,
    n: int,
)
    requires
        0 <= n <= subscribers.len(),
    ensures
        static_targets(subscribers, eventgroup, n) == subscribers.take(n).filter(
            |x: (SocketAddr, Seq<u16>)| x.1.contains(eventgroup),
        ).map_values(|x: (SocketAddr, Seq<u16>)| x.0),
    decreases n,
{
    let p = |x: (SocketAddr, Seq<u16>)| x.1.contains(eventgroup);
    let f = |x: (SocketAddr, Seq<u16>)| x.0;
    reveal(Seq::filter);
    if n > 0 {
        static_subscribers_are_notified(subscribers, eventgroup, n - 1);
        crate::rows::lemma_filter_step(subscribers, n - 1, p);
        let before = subscribers.take(n - 1).filter(p);
        if p(subscribers[n - 1]) {
            assert(before.push(subscribers[n - 1]).map_values(f) =~= before.map_values(f).push(
                f(subscribers[n - 1]),
            ));
        }
    } else {
        assert(subscribers.take(0) =~= Seq::<(SocketAddr, Seq<u16>)>::empty());
        assert(subscribers.take(0).filter(p).map_values(f) =~= Seq::<SocketAddr>::empty());
    }
}

/// Every channel through which something may still be sent or delivered stays open: of the
/// request socket, of offered services and their sockets, and of every handle that waits for a
/// search, an event, a response or the outcome of a subscription, or that monitors discovery.
pub proof fn channels_stay_open_while_needed(s: StateView, i: int)
    ensures
        refers_to(s, s.client_rpc_tx),
        0 <= i < s.offered.len() ==> {
            let o = s.offered[i].1;
            &&& refers_to(s, o.requests_tx)
            &&& o.udp_transport matches Some(RpcTransportSender::Udp(id)) ==> refers_to(s, id)
            &&& o.tcp_transport matches Some(RpcTransportSender::Tcp(id)) ==> refers_to(s, id)
        },
        0 <= i < s.find_requests.len() ==> refers_to(s, s.find_requests[i].1.notify),
        0 <= i < s.subscriptions.len() ==> refers_to(s, s.subscriptions[i].events_tx),
        0 <= i < s.static_listeners.len() ==> refers_to(s, s.static_listeners[i].1),
        0 <= i < s.pending_calls.len() ==> refers_to(s, s.pending_calls[i].1.response),
        0 <= i < s.pending_subscriptions.len() ==> (
        s.pending_subscriptions[i].1.response matches Some(to) ==> refers_to(s, to)),
        0 <= i < s.multi.len() ==> (s.multi[i].1.response matches Some(to) ==> refers_to(s, to)),
        0 <= i < s.sd_monitors.len() ==> refers_to(s, s.sd_monitors[i]),
{
    if 0 <= i < s.sd_monitors.len() {
        assert(s.sd_monitors.contains(s.sd_monitors[i]));
    }
}

} // verus!
