//! Which channels the runtime still refers to. A handle whose channel it has let go of learns
//! that nothing more will come.

use crate::message::ChannelId;
use crate::runtime::action::{PendingServerResponse, RpcTransportSender};
use crate::runtime::state::{
    CallKey, ClientSubscription, FindRequest, MultiEventgroupSubscriptionKey, MultiView,
    OfferedService, PendingCall, PendingSubscription, PendingSubscriptionKey, RuntimeState,
    ServiceKey, StateView, SubscriberKey,
};
use crate::table::Table;
use vstd::prelude::*;

verus! {

/// A socket's sending end is this channel.
pub open spec fn sends_through(transport: Option<RpcTransportSender>, id: ChannelId) -> bool {
    match transport {
        Some(RpcTransportSender::Udp(c)) => c == id,
        Some(RpcTransportSender::Tcp(c)) => c == id,
        None => false,
    }
}

/// An offered service refers to the channel.
pub open spec fn offer_refers(offered: OfferedService, id: ChannelId) -> bool {
    ||| offered.requests_tx == id
    ||| sends_through(offered.udp_transport, id)
    ||| sends_through(offered.tcp_transport, id)
}

/// An offered service refers to the channel.
pub open spec fn some_offer_refers(s: Seq<(ServiceKey, OfferedService)>, id: ChannelId) -> bool {
    exists|i: int| 0 <= i < s.len() && offer_refers((#[trigger] s[i]).1, id)
}

/// A search refers to the channel.
pub open spec fn some_search_refers(s: Seq<(ServiceKey, FindRequest)>, id: ChannelId) -> bool {
    exists|i: int| 0 <= i < s.len() && (#[trigger] s[i]).1.notify == id
}

/// A subscription refers to the channel.
pub open spec fn some_subscription_refers(s: Seq<ClientSubscription>, id: ChannelId) -> bool {
    exists|i: int| 0 <= i < s.len() && (#[trigger] s[i]).events_tx == id
}

/// A listener refers to the channel.
pub open spec fn some_listener_refers(s: Seq<(SubscriberKey, ChannelId)>, id: ChannelId) -> bool {
    exists|i: int| 0 <= i < s.len() && (#[trigger] s[i]).1 == id
}

/// A call refers to the channel.
pub open spec fn some_call_refers(s: Seq<(CallKey, PendingCall)>, id: ChannelId) -> bool {
    exists|i: int| 0 <= i < s.len() && (#[trigger] s[i]).1.response == id
}

/// A subscription that awaits its answer refers to the channel.
pub open spec fn some_wait_refers(
    s: Seq<(PendingSubscriptionKey, PendingSubscription)>,
    id: ChannelId,
) -> bool {
    exists|i: int| 0 <= i < s.len() && (#[trigger] s[i]).1.response == Some(id)
}

/// A subscription to several eventgroups that awaits its answers refers to the channel.
pub open spec fn some_multi_refers(
    s: Seq<(MultiEventgroupSubscriptionKey, MultiView)>,
    id: ChannelId,
) -> bool {
    exists|i: int| 0 <= i < s.len() && (#[trigger] s[i]).1.response == Some(id)
}

/// The state of the runtime refers to the channel.
pub open spec fn refers_to(s: StateView, id: ChannelId) -> bool {
    ||| s.client_rpc_tx == id
    ||| some_offer_refers(s.offered, id)
    ||| some_search_refers(s.find_requests, id)
    ||| some_subscription_refers(s.subscriptions, id)
    ||| some_listener_refers(s.static_listeners, id)
    ||| some_call_refers(s.pending_calls, id)
    ||| some_wait_refers(s.pending_subscriptions, id)
    ||| some_multi_refers(s.multi, id)
    ||| s.sd_monitors.contains(id)
}

fn is_sent_through(transport: Option<RpcTransportSender>, id: ChannelId) -> (r: bool)
    ensures
        r == sends_through(transport, id),
{
    match transport {
        Some(RpcTransportSender::Udp(c)) => c == id,
        Some(RpcTransportSender::Tcp(c)) => c == id,
        None => false,
    }
}

fn an_offer_refers(offered: &Table<ServiceKey, OfferedService>, id: ChannelId) -> (r: bool)
    ensures
        r == some_offer_refers(offered@, id),
{
    let mut i: usize = 0;
    while i < offered.len()
        invariant
            0 <= i <= offered@.len(),
            forall|k: int| 0 <= k < i ==> !offer_refers((#[trigger] offered@[k]).1, id),
        decreases offered@.len() - i,
    {
        let o = offered.value_at(i);
        if o.requests_tx == id || is_sent_through(o.udp_transport, id) || is_sent_through(
            o.tcp_transport,
            id,
        ) {
            assert(offer_refers(offered@[i as int].1, id));
            return true;
        }
        i += 1;
    }
    false
}

fn a_search_refers(searches: &Table<ServiceKey, FindRequest>, id: ChannelId) -> (r: bool)
    ensures
        r == some_search_refers(searches@, id),
{
    let mut i: usize = 0;
    while i < searches.len()
        invariant
            0 <= i <= searches@.len(),
            forall|k: int| 0 <= k < i ==> (#[trigger] searches@[k]).1.notify != id,
        decreases searches@.len() - i,
    {
        if searches.value_at(i).notify == id {
            return true;
        }
        i += 1;
    }
    false
}

fn a_subscription_refers(subscriptions: &Vec<ClientSubscription>, id: ChannelId) -> (r: bool)
    ensures
        r == some_subscription_refers(subscriptions@, id),
{
    let mut i: usize = 0;
    while i < subscriptions.len()
        invariant
            0 <= i <= subscriptions@.len(),
            forall|k: int| 0 <= k < i ==> (#[trigger] subscriptions@[k]).events_tx != id,
        decreases subscriptions@.len() - i,
    {
        if subscriptions[i].events_tx == id {
            assert(subscriptions@[i as int].events_tx == id);
            return true;
        }
        i += 1;
    }
    false
}

fn a_listener_refers(listeners: &Table<SubscriberKey, ChannelId>, id: ChannelId) -> (r: bool)
    ensures
        r == some_listener_refers(listeners@, id),
{
    let mut i: usize = 0;
    while i < listeners.len()
        invariant
            0 <= i <= listeners@.len(),
            forall|k: int| 0 <= k < i ==> (#[trigger] listeners@[k]).1 != id,
        decreases listeners@.len() - i,
    {
        if *listeners.value_at(i) == id {
            return true;
        }
        i += 1;
    }
    false
}

fn a_call_refers(calls: &Table<CallKey, PendingCall>, id: ChannelId) -> (r: bool)
    ensures
        r == some_call_refers(calls@, id),
{
    let mut i: usize = 0;
    while i < calls.len()
        invariant
            0 <= i <= calls@.len(),
            forall|k: int| 0 <= k < i ==> (#[trigger] calls@[k]).1.response != id,
        decreases calls@.len() - i,
    {
        if calls.value_at(i).response == id {
            return true;
        }
        i += 1;
    }
    false
}

fn a_wait_refers(
    waits: &Vec<(PendingSubscriptionKey, PendingSubscription)>,
    id: ChannelId,
) -> (r: bool)
    ensures
        r == some_wait_refers(waits@, id),
{
    let mut i: usize = 0;
    while i < waits.len()
        invariant
            0 <= i <= waits@.len(),
            forall|k: int| 0 <= k < i ==> (#[trigger] waits@[k]).1.response != Some(id),
        decreases waits@.len() - i,
    {
        if let Some(c) = waits[i].1.response {
            if c == id {
                assert(waits@[i as int].1.response == Some(id));
                return true;
            }
        }
        i += 1;
    }
    false
}

fn a_multi_refers(state: &RuntimeState, id: ChannelId) -> (r: bool)
    ensures
        r == some_multi_refers(state@.multi, id),
{
    let ghost multi = state@.multi;
    let mut i: usize = 0;
    while i < state.multi_eventgroup_subscriptions.len()
        invariant
            0 <= i <= multi.len(),
            multi == state@.multi,
            multi.len() == state.multi_eventgroup_subscriptions@.len(),
            forall|k: int| 0 <= k < i ==> (#[trigger] multi[k]).1.response != Some(id),
        decreases multi.len() - i,
    {
        let m = state.multi_eventgroup_subscriptions.value_at(i);
        assert(multi[i as int].1 == m@);
        if let Some(c) = m.response {
            if c == id {
                return true;
            }
        }
        i += 1;
    }
    false
}

fn a_monitor_refers(monitors: &Vec<ChannelId>, id: ChannelId) -> (r: bool)
    ensures
        r == monitors@.contains(id),
{
    let mut i: usize = 0;
    while i < monitors.len()
        invariant
            0 <= i <= monitors@.len(),
            forall|k: int| 0 <= k < i ==> monitors@[k] != id,
        decreases monitors@.len() - i,
    {
        if monitors[i] == id {
            return true;
        }
        i += 1;
    }
    false
}

/// Whether the answer to a request that was taken is sent through a channel. It may be awaited
/// longer than the service is offered.
pub fn awaits_through(context: &PendingServerResponse, id: ChannelId) -> (r: bool)
    ensures
        r == sends_through(Some(context.rpc_transport), id),
{
    is_sent_through(Some(context.rpc_transport), id)
}

/// Whether the state of the runtime still refers to a channel.
pub fn is_channel_in_use(state: &RuntimeState, id: ChannelId) -> (r: bool)
    ensures
        r == refers_to(state@, id),
{
    state.client_rpc_tx == id || an_offer_refers(&state.offered, id) || a_search_refers(
        &state.find_requests,
        id,
    ) || a_subscription_refers(&state.subscriptions, id) || a_listener_refers(
        &state.static_listeners,
        id,
    ) || a_call_refers(&state.pending_calls, id) || a_wait_refers(
        &state.pending_subscriptions,
        id,
    ) || a_multi_refers(state, id) || a_monitor_refers(&state.sd_monitors, id)
}

} // verus!
