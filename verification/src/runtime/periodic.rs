//! What the runtime does when time has passed.

use crate::discovery::{SdEntry, SdMessage, SdMessageView};
use crate::message::SdEvent;
use crate::net::SocketAddr;
use crate::runtime::action::{given, push, unless_empty, views, Action, ActionView};
use crate::runtime::cluster::{cluster_sd_actions, clustered};
use crate::runtime::sd::{
    add_offer, build_find_message, build_offer_message, find_message, offer_message,
    stop_offer_entry, with_offer,
};
use crate::runtime::state::{
    DiscoveredService, FindRequest, OfferedService, RuntimeState, ServerSubscription, ServiceKey,
    StateView, SubscriberSlot, MILLISECOND,
};
use crate::table::{lookup, map_table, put};
use vstd::prelude::*;

verus! {

/// The time that has passed; none where `since` lies ahead.
pub open spec fn elapsed(since: u64, now: u64) -> int {
    if now >= since {
        now - since
    } else {
        0
    }
}

fn time_since(since: u64, now: u64) -> (r: u128)
    ensures
        r == elapsed(since, now),
{
    if now >= since {
        (now - since) as u128
    } else {
        0
    }
}

/// A service is offered again: at least half of the cyclic delay has passed.
pub open spec fn offer_is_due(o: OfferedService, delay: u64, now: u64) -> bool {
    o.is_announcing && elapsed(o.last_offer, now) >= (delay - delay / 2) * MILLISECOND
}

/// What offering again does to a service.
pub open spec fn offered_again(delay: u64, now: u64) -> spec_fn(OfferedService) -> OfferedService {
    |o: OfferedService|
        if offer_is_due(o, delay, now) {
            OfferedService { last_offer: now, ..o }
        } else {
            o
        }
}

/// The offers of the first `n` services, as far as they are due.
pub open spec fn repeated_offers(s: StateView, now: u64, n: int) -> Seq<ActionView>
    decreases n,
{
    if n <= 0 {
        Seq::empty()
    } else {
        let before = repeated_offers(s, now, n - 1);
        let (key, o) = s.offered[n - 1];
        if offer_is_due(o, s.config.cyclic_offer_delay, now) {
            before.push(
                ActionView::SendSd {
                    message: offer_message(
                        key,
                        o,
                        s.flags(false),
                        s.config.offer_ttl,
                        s.config.advertised_ip,
                    ),
                    target: s.config.multicast_target(),
                },
            )
        } else {
            before
        }
    }
}

/// A search is repeated: repetitions are left, and the cyclic delay has passed.
pub open spec fn find_is_due(f: FindRequest, delay: u64, now: u64) -> bool {
    f.repetitions_left > 0 && elapsed(f.last_find, now) >= delay * MILLISECOND
}

/// What repeating does to a search.
pub open spec fn searched_again(delay: u64, now: u64) -> spec_fn(FindRequest) -> FindRequest {
    |f: FindRequest|
        if find_is_due(f, delay, now) {
            FindRequest {
                last_find: now,
                repetitions_left: (f.repetitions_left - 1) as u32,
                ..f
            }
        } else {
            f
        }
}

/// Wants the searches that have repetitions left.
pub open spec fn still_searching() -> spec_fn((ServiceKey, FindRequest)) -> bool {
    |e: (ServiceKey, FindRequest)| e.1.repetitions_left > 0
}

/// The first `n` searches, as far as they are due.
pub open spec fn repeated_finds(
    s: StateView,
    finds: Seq<(ServiceKey, FindRequest)>,
    now: u64,
    n: int,
) -> Seq<ActionView>
    decreases n,
{
    if n <= 0 {
        Seq::empty()
    } else {
        let before = repeated_finds(s, finds, now, n - 1);
        if find_is_due(finds[n - 1].1, s.config.cyclic_offer_delay, now) {
            before.push(
                ActionView::SendSd {
                    message: find_message(finds[n - 1].0, s.flags(false), s.config.find_ttl),
                    target: s.config.multicast_target(),
                },
            )
        } else {
            before
        }
    }
}

/// Wants the services whose offers have not ended.
pub open spec fn still_offered(now: u64) -> spec_fn((ServiceKey, DiscoveredService)) -> bool {
    |e: (ServiceKey, DiscoveredService)| now < e.1.ttl_expires
}

/// The first `n` services, as far as their offers have ended, are reported.
pub open spec fn expiries(
    discovered: Seq<(ServiceKey, DiscoveredService)>,
    now: u64,
    n: int,
) -> Seq<ActionView>
    decreases n,
{
    if n <= 0 {
        Seq::empty()
    } else {
        let before = expiries(discovered, now, n - 1);
        let (key, d) = discovered[n - 1];
        if now < d.ttl_expires {
            before
        } else {
            before.push(
                ActionView::EmitSdEvent {
                    event: SdEvent::ServiceExpired {
                        service_id: key.service_id,
                        instance_id: key.instance_id,
                    },
                },
            )
        }
    }
}

/// Wants the subscriptions that have not ended.
pub open spec fn still_subscribed(now: u64) -> spec_fn((SubscriberSlot, ServerSubscription)) -> bool {
    |e: (SubscriberSlot, ServerSubscription)|
        match e.1.expires_at {
            Some(at) => now < at,
            None => true,
        }
}

/// The state after the periodic tasks: what was sent is marked as sent, and what has
/// outlived its time is gone.
pub open spec fn after_periodic(s: StateView, now: u64) -> StateView {
    let delay = s.config.cyclic_offer_delay;
    StateView {
        offered: map_table(s.offered, offered_again(delay, now)),
        find_requests: map_table(
            s.find_requests.filter(still_searching()),
            searched_again(delay, now),
        ),
        discovered: s.discovered.filter(still_offered(now)),
        server_subscribers: s.server_subscribers.filter(still_subscribed(now)),
        ..s
    }
}

/// What the periodic tasks do: due offers and searches go to the group, and services whose
/// offers have ended are reported.
pub open spec fn periodic_actions(s: StateView, now: u64) -> Seq<ActionView> {
    let finds = s.find_requests.filter(still_searching());
    repeated_offers(s, now, s.offered.len() as int) + repeated_finds(
        s,
        finds,
        now,
        finds.len() as int,
    ) + expiries(s.discovered, now, s.discovered.len() as int)
}

fn repeat_offers(state: &mut RuntimeState, actions: &mut Vec<Action>, now: u64)
    requires
        old(state)@.wf(),
    ensures
        final(state)@ == (StateView {
            offered: map_table(
                old(state)@.offered,
                offered_again(old(state)@.config.cyclic_offer_delay, now),
            ),
            ..old(state)@
        }),
        views(final(actions)@) == views(old(actions)@) + repeated_offers(
            old(state)@,
            now,
            old(state)@.offered.len() as int,
        ),
        final(state)@.wf(),
{
    let ghost s = state@;
    let ghost before = views(actions@);
    let delay: u64 = state.config.cyclic_offer_delay;
    let flags: u8 = state.sd_flags(false);
    let due: u128 = (delay - delay / 2) as u128 * MILLISECOND;
    let ghost again = offered_again(delay, now);
    let mut i: usize = 0;
    assert(before + Seq::<ActionView>::empty() =~= before);
    while i < state.offered.len()
        invariant
            0 <= i <= s.offered.len(),
            delay == s.config.cyclic_offer_delay,
            due == (delay - delay / 2) * MILLISECOND,
            flags == s.flags(false),
            again == offered_again(delay, now),
            state@ == (StateView { offered: state@.offered, ..s }),
            state@.offered.len() == s.offered.len(),
            forall|j: int|
                0 <= j < i ==> #[trigger] state@.offered[j] == (
                    s.offered[j].0,
                    again(s.offered[j].1),
                ),
            forall|j: int| i <= j < s.offered.len() ==> #[trigger] state@.offered[j] == s.offered[j],
            views(actions@) == before + repeated_offers(s, now, i as int),
        decreases s.offered.len() - i,
    {
        let key = state.offered.key_at(i);
        let announcing: bool = state.offered.value_at(i).is_announcing;
        let since: u64 = state.offered.value_at(i).last_offer;
        if announcing && time_since(since, now) >= due {
            let message = build_offer_message(
                key,
                state.offered.value_at(i),
                flags,
                state.config.offer_ttl,
                state.config.advertised_ip,
            );
            push(
                actions,
                Action::SendSd { message, target: state.config.sd_multicast_addr() },
            );
            let offered = state.offered.value_mut(i);
            offered.last_offer = now;
        }
        i += 1;
        assert(views(actions@) =~= before + repeated_offers(s, now, i as int));
    }
    proof {
        assert(state@.offered =~= map_table(s.offered, again));
        crate::table::lemma_map_table(s.offered, again);
    }
}

fn repeat_finds(state: &mut RuntimeState, actions: &mut Vec<Action>, now: u64)
    requires
        old(state)@.wf(),
    ensures
        final(state)@ == (StateView {
            find_requests: map_table(
                old(state)@.find_requests.filter(still_searching()),
                searched_again(old(state)@.config.cyclic_offer_delay, now),
            ),
            ..old(state)@
        }),
        views(final(actions)@) == views(old(actions)@) + repeated_finds(
            old(state)@,
            old(state)@.find_requests.filter(still_searching()),
            now,
            old(state)@.find_requests.filter(still_searching()).len() as int,
        ),
        final(state)@.wf(),
{
    let ghost s = state@;
    let ghost before = views(actions@);
    let searching = |e: (ServiceKey, FindRequest)| -> (b: bool)
        ensures
            b == (e.1.repetitions_left > 0),
        { e.1.repetitions_left > 0 };
    state.find_requests.keep_where(searching, Ghost(still_searching()));
    let ghost finds = state@.find_requests;
    let delay: u64 = state.config.cyclic_offer_delay;
    let flags: u8 = state.sd_flags(false);
    let due: u128 = delay as u128 * MILLISECOND;
    let ghost again = searched_again(delay, now);
    let mut i: usize = 0;
    assert(before + Seq::<ActionView>::empty() =~= before);
    while i < state.find_requests.len()
        invariant
            0 <= i <= finds.len(),
            delay == s.config.cyclic_offer_delay,
            due == delay * MILLISECOND,
            flags == s.flags(false),
            again == searched_again(delay, now),
            state@ == (StateView { find_requests: state@.find_requests, ..s }),
            state@.find_requests.len() == finds.len(),
            forall|j: int|
                0 <= j < i ==> #[trigger] state@.find_requests[j] == (finds[j].0, again(finds[j].1)),
            forall|j: int| i <= j < finds.len() ==> #[trigger] state@.find_requests[j] == finds[j],
            views(actions@) == before + repeated_finds(s, finds, now, i as int),
        decreases finds.len() - i,
    {
        let key = state.find_requests.key_at(i);
        let find = *state.find_requests.value_at(i);
        if find.repetitions_left > 0 && time_since(find.last_find, now) >= due {
            let message = build_find_message(
                key.service_id,
                key.instance_id,
                key.major_version,
                flags,
                state.config.find_ttl,
            );
            push(
                actions,
                Action::SendSd { message, target: state.config.sd_multicast_addr() },
            );
            let request = state.find_requests.value_mut(i);
            request.last_find = now;
            request.repetitions_left = find.repetitions_left - 1;
        }
        i += 1;
        assert(views(actions@) =~= before + repeated_finds(s, finds, now, i as int));
    }
    proof {
        assert(state@.find_requests =~= map_table(finds, again));
        crate::table::lemma_map_table(finds, again);
    }
}

fn expire_discovered(state: &mut RuntimeState, actions: &mut Vec<Action>, now: u64)
    requires
        old(state)@.wf(),
    ensures
        final(state)@ == (StateView {
            discovered: old(state)@.discovered.filter(still_offered(now)),
            ..old(state)@
        }),
        views(final(actions)@) == views(old(actions)@) + expiries(
            old(state)@.discovered,
            now,
            old(state)@.discovered.len() as int,
        ),
        final(state)@.wf(),
{
    let ghost s = state@;
    let ghost before = views(actions@);
    let mut i: usize = 0;
    assert(before + Seq::<ActionView>::empty() =~= before);
    while i < state.discovered.len()
        invariant
            0 <= i <= s.discovered.len(),
            state@ == s,
            views(actions@) == before + expiries(s.discovered, now, i as int),
        decreases s.discovered.len() - i,
    {
        let key = state.discovered.key_at(i);
        if !state.discovered.value_at(i).is_alive(now) {
            push(
                actions,
                Action::EmitSdEvent {
                    event: SdEvent::ServiceExpired {
                        service_id: key.service_id,
                        instance_id: key.instance_id,
                    },
                },
            );
        }
        i += 1;
        assert(views(actions@) =~= before + expiries(s.discovered, now, i as int));
    }
    let alive = |e: (ServiceKey, DiscoveredService)| -> (b: bool)
        ensures
            b == (now < e.1.ttl_expires),
        { (now as u128) < e.1.ttl_expires };
    state.discovered.keep_where(alive, Ghost(still_offered(now)));
    assert(state@ =~= (StateView { discovered: s.discovered.filter(still_offered(now)), ..s }));
}

/// The periodic tasks: repeats offers and searches, and drops what has outlived its time.
pub fn handle_periodic(state: &mut RuntimeState, now: u64) -> (r: Option<Vec<Action>>)
    requires
        old(state)@.wf(),
    ensures
        final(state)@ == after_periodic(old(state)@, now),
        given(r) == clustered(periodic_actions(old(state)@, now)),
        r is None <==> given(r).len() == 0,
        final(state)@.wf(),
{
    let ghost s = state@;
    let mut actions: Vec<Action> = Vec::new();
    assert(views(actions@) =~= Seq::<ActionView>::empty());
    repeat_offers(state, &mut actions, now);
    proof {
        lemma_finds_alone(s, state@, now);
    }
    repeat_finds(state, &mut actions, now);
    expire_discovered(state, &mut actions, now);
    let subscribed = |e: (SubscriberSlot, ServerSubscription)| -> (b: bool)
        ensures
            b == (match e.1.expires_at {
                Some(at) => now < at,
                None => true,
            }),
        {
            match e.1.expires_at {
                Some(at) => (now as u128) < at,
                None => true,
            }
        };
    state.server_subscribers.keep_where(subscribed, Ghost(still_subscribed(now)));
    assert(state@ =~= after_periodic(s, now));
    assert(views(actions@) =~= periodic_actions(s, now));
    unless_empty(cluster_sd_actions(actions))
}

/// The searches depend on the settings and flags alone.
proof fn lemma_finds_alone(s: StateView, t: StateView, now: u64)
    requires
        t.config == s.config,
        t.flags(false) == s.flags(false),
    ensures
        forall|finds: Seq<(ServiceKey, FindRequest)>, n: int| #[trigger]
            repeated_finds(t, finds, now, n) == repeated_finds(s, finds, now, n),
{
    assert forall|finds: Seq<(ServiceKey, FindRequest)>, n: int| #[trigger]
        repeated_finds(t, finds, now, n) == repeated_finds(s, finds, now, n) by {
        lemma_finds_alone_at(s, t, finds, now, n);
    }
}

proof fn lemma_finds_alone_at(
    s: StateView,
    t: StateView,
    finds: Seq<(ServiceKey, FindRequest)>,
    now: u64,
    n: int,
)
    requires
        t.config == s.config,
        t.flags(false) == s.flags(false),
    ensures
        repeated_finds(t, finds, now, n) == repeated_finds(s, finds, now, n),
    decreases n,
{
    if n > 0 {
        lemma_finds_alone_at(s, t, finds, now, n - 1);
    }
}

/// The services and the message after the first `n` held back offers: those services that
/// are still offered are offered in the message.
pub open spec fn initial_offers(s: StateView, now: u64, n: int) -> (
    Seq<(ServiceKey, OfferedService)>,
    SdMessageView,
)
    decreases n,
{
    if n <= 0 {
        (s.offered, SdMessageView::empty(s.flags(false)))
    } else {
        let (offered, message) = initial_offers(s, now, n - 1);
        let key = s.pending_initial_offers[n - 1];
        match lookup(offered, key) {
            Some(o) => (
                put(offered, key, OfferedService { last_offer: now, ..o }),
                with_offer(message, key, o, s.config.offer_ttl, s.config.advertised_ip),
            ),
            None => (offered, message),
        }
    }
}

/// The state after the held back offers were sent.
pub open spec fn after_initial_offers(s: StateView, now: u64) -> StateView {
    StateView {
        offered: initial_offers(s, now, s.pending_initial_offers.len() as int).0,
        pending_initial_offers: Seq::empty(),
        pending_offers_deadline: None,
        ..s
    }
}

/// The one message that makes the held back offers, where any is held back.
pub open spec fn initial_offer_actions(s: StateView, now: u64) -> Seq<ActionView> {
    if s.pending_initial_offers.len() == 0 {
        Seq::empty()
    } else {
        seq![
            ActionView::SendSd {
                message: initial_offers(s, now, s.pending_initial_offers.len() as int).1,
                target: s.config.multicast_target(),
            },
        ]
    }
}

/// Sends the offers that were held back, all in one message.
pub fn flush_pending_initial_offers(state: &mut RuntimeState, now: u64) -> (r: Option<Vec<Action>>)
    requires
        old(state)@.wf(),
    ensures
        final(state)@ == after_initial_offers(old(state)@, now),
        given(r) == initial_offer_actions(old(state)@, now),
        r is None <==> old(state)@.pending_initial_offers.len() == 0,
        final(state)@.wf(),
{
    let ghost s = state@;
    if state.pending_initial_offers.len() == 0 {
        state.pending_offers_deadline = None;
        assert(state@ =~= after_initial_offers(s, now));
        return None;
    }
    let mut message = SdMessage::new(state.sd_flags(false));
    let mut i: usize = 0;
    while i < state.pending_initial_offers.len()
        invariant
            0 <= i <= s.pending_initial_offers.len(),
            state@ == (StateView { offered: state@.offered, ..s }),
            (state@.offered, message@) == initial_offers(s, now, i as int),
            state@.wf(),
        decreases s.pending_initial_offers.len() - i,
    {
        let key = state.pending_initial_offers[i];
        if let Some(p) = state.offered.position(&key) {
            let ghost before = state@.offered;
            proof {
                crate::table::lemma_lookup_at(before, p as int);
                let o = before[p as int].1;
                crate::table::lemma_put(before, key, OfferedService { last_offer: now, ..o });
            }
            add_offer(
                &mut message,
                key,
                state.offered.value_at(p),
                state.config.offer_ttl,
                state.config.advertised_ip,
            );
            let offered = state.offered.value_mut(p);
            offered.last_offer = now;
            assert(state@.offered == put(
                before,
                key,
                OfferedService { last_offer: now, ..before[p as int].1 },
            ));
        }
        i += 1;
    }
    state.pending_initial_offers = Vec::new();
    state.pending_offers_deadline = None;
    assert(state@ =~= after_initial_offers(s, now));
    let mut actions: Vec<Action> = Vec::new();
    push(&mut actions, Action::SendSd { message, target: state.config.sd_multicast_addr() });
    assert(views(actions@) =~= initial_offer_actions(s, now));
    Some(actions)
}

/// The message that withdraws all offers.
pub open spec fn stop_offers_message(s: StateView) -> SdMessageView {
    SdMessageView {
        flags: s.flags(false),
        entries: s.offered.map_values(
            |e: (ServiceKey, OfferedService)| stop_offer_entry(e.0, e.1),
        ),
        options: Seq::empty(),
    }
}

/// The bytes that withdraw all offers, and where they go; none where nothing is offered.
pub fn stop_offers(state: &mut RuntimeState) -> (r: Option<(Vec<u8>, SocketAddr)>)
    requires
        old(state)@.wf(),
    ensures
        match r {
            Some((data, target)) => {
                &&& old(state)@.offered.len() > 0
                &&& data@ == stop_offers_message(old(state)@).bytes(
                    old(state)@.multicast_session_id,
                )
                &&& target == old(state)@.config.multicast_target()
                &&& final(state)@ == old(state)@.multicast_session_used()
            },
            None => old(state)@.offered.len() == 0 && final(state)@ == old(state)@,
        },
        final(state)@.wf(),
{
    if state.offered.is_empty() {
        return None;
    }
    let ghost s = state@;
    let ghost all = stop_offers_message(s).entries;
    let mut message = SdMessage::new(state.sd_flags(false));
    let mut i: usize = 0;
    assert(all.take(0) =~= Seq::<SdEntry>::empty());
    while i < state.offered.len()
        invariant
            0 <= i <= s.offered.len(),
            state@ == s,
            all == stop_offers_message(s).entries,
            message@.flags == s.flags(false),
            message@.entries == all.take(i as int),
            message@.options == SdMessageView::empty(s.flags(false)).options,
        decreases s.offered.len() - i,
    {
        let key = state.offered.key_at(i);
        let offered = state.offered.value_at(i);
        message.add_entry(
            SdEntry::stop_offer_service(
                key.service_id,
                key.instance_id,
                offered.major_version,
                offered.minor_version,
            ),
        );
        proof {
            crate::rows::lemma_take_step(all, i as int);
        }
        i += 1;
    }
    assert(all.take(i as int) =~= all);
    assert(message@ =~= stop_offers_message(s));
    let session_id: u16 = state.next_multicast_session_id();
    Some((message.serialize(session_id), state.config.sd_multicast_addr()))
}

} // verus!
