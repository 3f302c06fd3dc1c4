//! What holds of a runtime that shuts down.

use crate::buffer::content;
use crate::error::Error;
use crate::ids::{InstanceId, ServiceId};
use crate::message::{ChannelId, Reply};
use crate::runtime::action::PendingServerResponse;
use crate::runtime::command::Command;
use crate::runtime::event_loop::{
    answer_bytes, answer_effects, answer_fits, reaction, shutdown_effects, LoopEvent, LoopView,
};
use crate::runtime::execute::{executed_all, EffectView};
use crate::runtime::periodic::stop_offers_message;
use crate::runtime::rpc::response_bytes;
use crate::runtime::state::{ServiceKey, StateView};
use crate::table::{has_key, lemma_without};
use vstd::prelude::*;

verus! {

/// A request and its answer.
pub type GivenAnswer = (PendingServerResponse, Result<Reply, Error>);

/// The state and the effects after the first `n` of the answers, which come one after the other.
pub open spec fn answered_in_turn(
    l: LoopView,
    answers: Seq<GivenAnswer>,
    now: u64,
    reply: ChannelId,
    n: int,
) -> (LoopView, Seq<EffectView>)
    decreases n,
{
    if n <= 0 {
        (l, Seq::empty())
    } else {
        let (before, effects) = answered_in_turn(l, answers, now, reply, n - 1);
        let (context, result) = answers[n - 1];
        let (after, more) = reaction(before, LoopEvent::Answered { context, result }, now, reply);
        (after, effects + more)
    }
}

/// The response to a request that was answered.
pub open spec fn response_to(answer: GivenAnswer) -> EffectView {
    let (context, result) = answer;
    EffectView::SendFromService {
        via: context.rpc_transport,
        data: response_bytes(
            context.service_id,
            context.method_id,
            context.client_id,
            context.session_id,
            context.interface_version,
            match result {
                Ok(Reply::Payload(_)) => 0x00,
                Ok(Reply::Refused(error)) => error.raw(),
                Err(_) => 0x01,
            },
            match result {
                Ok(Reply::Payload(payload)) => content(payload),
                _ => Seq::empty(),
            },
            context.uses_exception && !(result matches Ok(Reply::Payload(_))),
        ),
        target: context.client_addr,
    }
}

/// A request that was taken is answered whatever has become of its service: the response goes
/// out through the socket on which the request came, also once the offer was withdrawn.
pub proof fn an_answer_outlives_its_offer(
    l: LoopView,
    service_id: ServiceId,
    instance_id: InstanceId,
    major_version: u8,
    context: PendingServerResponse,
    result: Result<Reply, Error>,
    now: u64,
    reply: ChannelId,
)
    requires
        l.wf(),
        answer_fits(result),
    ensures
        ({
            let stop = Command::StopOffer { service_id, instance_id, major_version };
            let withdrawn = reaction(l, LoopEvent::Command { command: stop }, now, reply).0;
            let key = ServiceKey::of(service_id, instance_id, major_version);
            &&& !has_key(withdrawn.state.offered, key)
            &&& reaction(withdrawn, LoopEvent::Answered { context, result }, now, reply) == (
                withdrawn,
                seq![response_to((context, result))],
            )
        }),
{
    lemma_withdrawn(l, service_id, instance_id, major_version, now, reply);
    assert(answer_effects(context, result) =~= seq![response_to((context, result))]);
}

proof fn lemma_withdrawn(
    l: LoopView,
    service_id: ServiceId,
    instance_id: InstanceId,
    major_version: u8,
    now: u64,
    reply: ChannelId,
)
    requires
        l.wf(),
    ensures
        ({
            let stop = Command::StopOffer { service_id, instance_id, major_version };
            let withdrawn = reaction(l, LoopEvent::Command { command: stop }, now, reply).0;
            !has_key(
                withdrawn.state.offered,
                ServiceKey::of(service_id, instance_id, major_version),
            )
        }),
{
    let key = ServiceKey::of(service_id, instance_id, major_version);
    lemma_without(l.state.offered, key);
    reveal_with_fuel(executed_all, 2);
}

/// A runtime that shuts down withdraws its offers, all in one message and before it stops; then
/// each request that still awaits its answer gets exactly one response, in the order in which
/// the answers come: return code 0 with the payload, the code of a refusal, or return code 1
/// without payload where the service has failed. Nothing else is sent.
pub proof fn pending_requests_are_answered_at_shutdown(
    l: LoopView,
    answers: Seq<GivenAnswer>,
    now: u64,
    reply: ChannelId,
)
    requires
        forall|i: int| 0 <= i < answers.len() ==> answer_fits((#[trigger] answers[i]).1),
    ensures
        ({
            let shutdown = LoopEvent::Command { command: Command::Shutdown };
            let (stopped, withdrawal) = reaction(l, shutdown, now, reply);
            let n = answers.len() as int;
            let (end, responses) = answered_in_turn(stopped, answers, now, reply, n);
            &&& withdrawal == (if l.state.offered.len() > 0 {
                seq![
                    EffectView::SendSd {
                        data: stop_offers_message(l.state).bytes(l.state.multicast_session_id),
                        target: l.state.config.multicast_target(),
                    },
                    EffectView::Stop,
                ]
            } else {
                seq![EffectView::Stop]
            })
            &&& stop_offers_message(l.state).entries.len() == l.state.offered.len()
            &&& forall|i: int|
                0 <= i < l.state.offered.len() ==> ({
                    let e = #[trigger] stop_offers_message(l.state).entries[i];
                    &&& e.entry_type is OfferService
                    &&& e.stops()
                    &&& e.service_id == l.state.offered[i].0.service_id
                    &&& e.instance_id == l.state.offered[i].0.instance_id
                    &&& e.major_version == l.state.offered[i].1.major_version
                })
            &&& end == stopped
            &&& responses == answers.map_values(|a: GivenAnswer| response_to(a))
        }),
{
    let shutdown = LoopEvent::Command { command: Command::Shutdown };
    let stopped = reaction(l, shutdown, now, reply).0;
    lemma_shutdown(l, now, reply);
    lemma_withdrawals(l.state);
    lemma_answered_in_turn(stopped, answers, now, reply, answers.len() as int);
    assert(answers.take(answers.len() as int) =~= answers);
}

proof fn lemma_shutdown(l: LoopView, now: u64, reply: ChannelId)
    ensures
        reaction(l, LoopEvent::Command { command: Command::Shutdown }, now, reply).1
            == shutdown_effects(l.state).1,
{
}

proof fn lemma_withdrawals(s: StateView)
    ensures
        stop_offers_message(s).entries.len() == s.offered.len(),
        forall|i: int|
            0 <= i < s.offered.len() ==> ({
                let e = #[trigger] stop_offers_message(s).entries[i];
                &&& e.entry_type is OfferService
                &&& e.stops()
                &&& e.service_id == s.offered[i].0.service_id
                &&& e.instance_id == s.offered[i].0.instance_id
                &&& e.major_version == s.offered[i].1.major_version
            }),
{
}

proof fn lemma_answered_in_turn(
    l: LoopView,
    answers: Seq<GivenAnswer>,
    now: u64,
    reply: ChannelId,
    n: int,
)
    requires
        0 <= n <= answers.len(),
        forall|i: int| 0 <= i < answers.len() ==> answer_fits((#[trigger] answers[i]).1),
    ensures
        answered_in_turn(l, answers, now, reply, n) == (
            l,
            answers.take(n).map_values(|a: GivenAnswer| response_to(a)),
        ),
    decreases n,
{
    let all = answers.take(n).map_values(|a: GivenAnswer| response_to(a));
    if n > 0 {
        lemma_answered_in_turn(l, answers, now, reply, n - 1);
        let (context, result) = answers[n - 1];
        assert(answer_fits(result));
        assert(answer_bytes(context, result) == response_to(answers[n - 1])->SendFromService_data);
        assert(answer_effects(context, result) =~= seq![response_to(answers[n - 1])]);
    }
    assert(answered_in_turn(l, answers, now, reply, n).1 =~= all);
}

} // verus!
