//! What holds of a cycle of the periodic tasks: what it sends again, what it drops, and that it
//! keeps the offers of a host alive at other hosts.

use crate::discovery::SdMessageView;
use crate::message::{ChannelId, SdEvent};
use crate::net::SocketAddr;
use crate::runtime::action::ActionView;
use crate::runtime::announcement_laws::{
    endpoints_of, every_offer_of_a_message_is_believed, is_about, lemma_appended,
};
use crate::runtime::cluster::{
    by_target, carries, clustered, merged, merging_keeps_references, not_sd, refers_within,
};
use crate::runtime::event_loop::{carried_out, cycle_reaction, reaction, LoopEvent, LoopView};
use crate::runtime::execute::{executed_all, EffectView};
use crate::runtime::incoming::shows_reboot;
use crate::runtime::periodic::{
    after_initial_offers, after_periodic, expiries, initial_offer_actions, initial_offers,
    offered_again, periodic_actions, repeated_finds, repeated_offers, searched_again,
    still_searching,
};
use crate::runtime::reader_laws::{lemma_offer_says, lifetime_end, spoken_of};
use crate::runtime::reading::{
    discovery_group, entry_offers, lemma_one_executed, lemma_read, message_in, named_at, seen_from,
    session_in,
};
use crate::runtime::sd::{find_message, offer_message, offer_names_its_endpoints};
use crate::runtime::state::{DiscoveredService, FindRequest, OfferedService, ServiceKey, StateView};
use crate::runtime::upkeep_laws::all_options;
use crate::table::{
    distinct, has_key, lemma_filter_distinct, lemma_lookup_at, lemma_map_table, lookup,
};
use vstd::prelude::*;

verus! {

/// The offer of an announced service is to be repeated: half of the delay between two cycles has
/// passed since the last.
pub open spec fn to_repeat(o: OfferedService, delay: u64, now: u64) -> bool {
    o.is_announcing && (delay == 0 || o.last_offer + (delay - delay / 2) * 1_000_000 <= now)
}

/// A search is to be repeated: a repetition is left, and the delay between two cycles has passed
/// since the last.
pub open spec fn to_ask_again(f: FindRequest, delay: u64, now: u64) -> bool {
    f.repetitions_left > 0 && (delay == 0 || f.last_find + delay * 1_000_000 <= now)
}

/// The services whose offers are to be repeated.
pub open spec fn due_offers(s: StateView, now: u64) -> Seq<(ServiceKey, OfferedService)> {
    s.offered.filter(
        |x: (ServiceKey, OfferedService)| to_repeat(x.1, s.config.cyclic_offer_delay, now),
    )
}

/// The searches that are to be repeated.
pub open spec fn due_searches(s: StateView, now: u64) -> Seq<(ServiceKey, FindRequest)> {
    s.find_requests.filter(
        |x: (ServiceKey, FindRequest)| to_ask_again(x.1, s.config.cyclic_offer_delay, now),
    )
}

/// The services whose lifetime has passed.
pub open spec fn ended(s: StateView, now: u64) -> Seq<(ServiceKey, DiscoveredService)> {
    s.discovered.filter(|x: (ServiceKey, DiscoveredService)| x.1.ttl_expires <= now)
}

spec fn offer_again(s: StateView) -> spec_fn((ServiceKey, OfferedService)) -> ActionView {
    |x: (ServiceKey, OfferedService)|
        ActionView::SendSd {
            message: offer_message(
                x.0,
                x.1,
                s.flags(false),
                s.config.offer_ttl,
                s.config.advertised_ip,
            ),
            target: discovery_group(s),
        }
}

spec fn ask_again(s: StateView) -> spec_fn((ServiceKey, FindRequest)) -> ActionView {
    |x: (ServiceKey, FindRequest)|
        ActionView::SendSd {
            message: find_message(x.0, s.flags(false), s.config.find_ttl),
            target: discovery_group(s),
        }
}

spec fn report_end() -> spec_fn((ServiceKey, DiscoveredService)) -> ActionView {
    |x: (ServiceKey, DiscoveredService)|
        ActionView::EmitSdEvent {
            event: SdEvent::ServiceExpired {
                service_id: x.0.service_id,
                instance_id: x.0.instance_id,
            },
        }
}

proof fn lemma_offers_again(s: StateView, now: u64, n: int)
    requires
        0 <= n <= s.offered.len(),
    ensures
        repeated_offers(s, now, n) == s.offered.take(n).filter(
            |x: (ServiceKey, OfferedService)| to_repeat(x.1, s.config.cyclic_offer_delay, now),
        ).map_values(offer_again(s)),
    decreases n,
{
    let p = |x: (ServiceKey, OfferedService)| to_repeat(x.1, s.config.cyclic_offer_delay, now);
    let f = offer_again(s);
    reveal(Seq::filter);
    if n > 0 {
        lemma_offers_again(s, now, n - 1);
        crate::rows::lemma_filter_step(s.offered, n - 1, p);
        let before = s.offered.take(n - 1).filter(p);
        if p(s.offered[n - 1]) {
            assert(before.push(s.offered[n - 1]).map_values(f) =~= before.map_values(f).push(
                f(s.offered[n - 1]),
            ));
        }
    } else {
        assert(s.offered.take(0) =~= Seq::<(ServiceKey, OfferedService)>::empty());
        assert(s.offered.take(0).filter(p).map_values(f) =~= Seq::<ActionView>::empty());
    }
}

proof fn lemma_asks_again(
    s: StateView,
    finds: Seq<(ServiceKey, FindRequest)>,
    now: u64,
    n: int,
)
    requires
        0 <= n <= finds.len(),
    ensures
        repeated_finds(s, finds, now, n) == finds.take(n).filter(
            |x: (ServiceKey, FindRequest)| to_ask_again(x.1, s.config.cyclic_offer_delay, now),
        ).map_values(ask_again(s)),
    decreases n,
{
    let p = |x: (ServiceKey, FindRequest)| to_ask_again(x.1, s.config.cyclic_offer_delay, now);
    let f = ask_again(s);
    reveal(Seq::filter);
    if n > 0 {
        lemma_asks_again(s, finds, now, n - 1);
        crate::rows::lemma_filter_step(finds, n - 1, p);
        let before = finds.take(n - 1).filter(p);
        if p(finds[n - 1]) {
            assert(before.push(finds[n - 1]).map_values(f) =~= before.map_values(f).push(
                f(finds[n - 1]),
            ));
        }
    } else {
        assert(finds.take(0) =~= Seq::<(ServiceKey, FindRequest)>::empty());
        assert(finds.take(0).filter(p).map_values(f) =~= Seq::<ActionView>::empty());
    }
}

proof fn lemma_reports(discovered: Seq<(ServiceKey, DiscoveredService)>, now: u64, n: int)
    requires
        0 <= n <= discovered.len(),
    ensures
        expiries(discovered, now, n) == discovered.take(n).filter(
            |x: (ServiceKey, DiscoveredService)| x.1.ttl_expires <= now,
        ).map_values(report_end()),
    decreases n,
{
    let p = |x: (ServiceKey, DiscoveredService)| x.1.ttl_expires <= now;
    let f = report_end();
    reveal(Seq::filter);
    if n > 0 {
        lemma_reports(discovered, now, n - 1);
        crate::rows::lemma_filter_step(discovered, n - 1, p);
        let before = discovered.take(n - 1).filter(p);
        if p(discovered[n - 1]) {
            assert(before.push(discovered[n - 1]).map_values(f) =~= before.map_values(f).push(
                f(discovered[n - 1]),
            ));
        }
    } else {
        assert(discovered.take(0) =~= Seq::<(ServiceKey, DiscoveredService)>::empty());
        assert(discovered.take(0).filter(p).map_values(f) =~= Seq::<ActionView>::empty());
    }
}

/// The periodic actions: due offers, due searches, and reports.
proof fn lemma_periodic_actions(s: StateView, now: u64)
    ensures
        periodic_actions(s, now) == due_offers(s, now).map_values(offer_again(s)) + due_searches(
            s,
            now,
        ).map_values(ask_again(s)) + ended(s, now).map_values(report_end()),
{
    let finds = s.find_requests.filter(still_searching());
    lemma_offers_again(s, now, s.offered.len() as int);
    lemma_asks_again(s, finds, now, finds.len() as int);
    lemma_reports(s.discovered, now, s.discovered.len() as int);
    assert(s.offered.take(s.offered.len() as int) =~= s.offered);
    assert(finds.take(finds.len() as int) =~= finds);
    assert(s.discovered.take(s.discovered.len() as int) =~= s.discovered);
    let p = |x: (ServiceKey, FindRequest)| to_ask_again(x.1, s.config.cyclic_offer_delay, now);
    crate::rows::lemma_filter_filter(s.find_requests, still_searching(), p);
    let both = crate::rows::both(still_searching(), p);
    assert forall|x: (ServiceKey, FindRequest)| #[trigger] both(x) == p(x) by {}
    assert(both =~= p);
}

/// The actions send one entry each to one target.
spec fn single_entries(acts: Seq<ActionView>, g: SocketAddr, flags: u8) -> bool {
    forall|i: int|
        0 <= i < acts.len() ==> {
            let a = #[trigger] acts[i];
            let m = a->SendSd_message;
            &&& a == (ActionView::SendSd { message: m, target: g })
            &&& m.flags == flags
            &&& m.entries.len() == 1
            &&& refers_within(m.entries[0], m.options.len() as int)
        }
}

/// The number of endpoints of the services.
pub open spec fn endpoints_among(offers: Seq<(ServiceKey, OfferedService)>) -> nat
    decreases offers.len(),
{
    if offers.len() == 0 {
        0
    } else {
        endpoints_among(offers.drop_last()) + endpoints_of(offers.last().1)
    }
}

proof fn lemma_options_sent(
    s: StateView,
    due: Seq<(ServiceKey, OfferedService)>,
    asked: Seq<(ServiceKey, FindRequest)>,
)
    ensures
        all_options(due.map_values(offer_again(s)) + asked.map_values(ask_again(s)))
            == endpoints_among(due),
    decreases due.len() + asked.len(),
{
    let f = offer_again(s);
    let g = ask_again(s);
    let all = due.map_values(f) + asked.map_values(g);
    if asked.len() > 0 {
        let fewer = asked.drop_last();
        lemma_options_sent(s, due, fewer);
        assert(all.drop_last() =~= due.map_values(f) + fewer.map_values(g));
        assert(all.last() == g(asked.last()));
    } else if due.len() > 0 {
        let fewer = due.drop_last();
        lemma_options_sent(s, fewer, asked);
        assert(all.drop_last() =~= fewer.map_values(f) + asked.map_values(g));
        assert(all.last() == f(due.last()));
    }
}

proof fn lemma_gathered(acts: Seq<ActionView>, g: SocketAddr, flags: u8)
    requires
        single_entries(acts, g, flags),
        all_options(acts) <= 256,
    ensures
        acts.len() == 0 ==> by_target(acts).len() == 0,
        acts.len() > 0 ==> {
            let (target, r) = by_target(acts)[0];
            &&& by_target(acts).len() == 1
            &&& target == g
            &&& r.flags == flags
            &&& r.entries.len() == acts.len()
            &&& r.options.len() == all_options(acts)
            &&& forall|i: int|
                0 <= i < acts.len() ==> carries(
                    r,
                    i,
                    (#[trigger] acts[i])->SendSd_message,
                    acts[i]->SendSd_message.entries[0],
                )
        },
    decreases acts.len(),
{
    if acts.len() > 0 {
        let before = acts.drop_last();
        assert forall|i: int| 0 <= i < before.len() implies {
            let a = #[trigger] before[i];
            let m = a->SendSd_message;
            &&& a == (ActionView::SendSd { message: m, target: g })
            &&& m.flags == flags
            &&& m.entries.len() == 1
            &&& refers_within(m.entries[0], m.options.len() as int)
        } by {
            assert(before[i] == acts[i]);
        }
        lemma_gathered(before, g, flags);
        let n = before.len() as int;
        let last = acts[n];
        assert(acts.last() == last);
        let m = last->SendSd_message;
        let t = by_target(before);
        let base = crate::runtime::cluster::gathered(t, g, m);
        if n > 0 {
            assert(distinct(t));
            lemma_lookup_at(t, 0);
            assert(base == t[0].1);
        } else {
            assert(!has_key(t, g));
            assert(base == SdMessageView::empty(flags));
        }
        let r = merged(base, m);
        assert(by_target(acts) =~= seq![(g, r)]);
        merging_keeps_references(base, m, 0);
        assert(r.options.take(base.options.len() as int) =~= base.options);
        assert forall|i: int| 0 <= i < acts.len() implies carries(
            r,
            i,
            (#[trigger] acts[i])->SendSd_message,
            acts[i]->SendSd_message.entries[0],
        ) by {
            if i < n {
                assert(before[i] == acts[i]);
                assert(r.entries[i] == base.entries[i]);
                lemma_appended(base, r, base.entries[i]);
            }
        }
    }
}

proof fn lemma_reports_not_gathered(acts: Seq<ActionView>, reports: Seq<ActionView>)
    requires
        forall|i: int| 0 <= i < reports.len() ==> !((#[trigger] reports[i]) is SendSd),
    ensures
        by_target(acts + reports) == by_target(acts),
    decreases reports.len(),
{
    if reports.len() > 0 {
        let fewer = reports.drop_last();
        assert forall|i: int| 0 <= i < fewer.len() implies !((#[trigger] fewer[i]) is SendSd) by {
            assert(fewer[i] == reports[i]);
        }
        lemma_reports_not_gathered(acts, fewer);
        let all = acts + reports;
        assert(all.drop_last() =~= acts + fewer);
        assert(all.last() == reports[reports.len() - 1]);
    } else {
        assert(acts + reports =~= acts);
    }
}

/// Sending and reporting, once clustered: the reports, and then one message.
proof fn lemma_clustered_cycle(
    acts: Seq<ActionView>,
    reports: Seq<ActionView>,
    g: SocketAddr,
    flags: u8,
)
    requires
        single_entries(acts, g, flags),
        all_options(acts) <= 256,
        forall|i: int| 0 <= i < reports.len() ==> (#[trigger] reports[i]) is EmitSdEvent,
    ensures
        acts.len() == 0 ==> clustered(acts + reports) == reports,
        acts.len() > 0 ==> {
            let (_, r) = by_target(acts)[0];
            clustered(acts + reports) == reports.push(ActionView::SendSd { message: r, target: g })
        },
{
    lemma_gathered(acts, g, flags);
    lemma_reports_not_gathered(acts, reports);
    let p = not_sd();
    Seq::filter_distributes_over_add(acts, reports, p);
    crate::rows::lemma_filter_none(acts, p);
    crate::rows::lemma_filter_all(reports, p);
    if acts.len() > 0 {
        let (_, r) = by_target(acts)[0];
        assert(clustered(acts + reports) =~= reports.push(
            ActionView::SendSd { message: r, target: g },
        ));
    } else {
        assert(clustered(acts + reports) =~= reports);
    }
}

proof fn lemma_reported(s: StateView, acts: Seq<ActionView>, n: int)
    requires
        0 <= n <= acts.len(),
        forall|i: int| 0 <= i < n ==> (#[trigger] acts[i]) is EmitSdEvent,
    ensures
        ({
            let (t, effects) = executed_all(s, acts, n);
            &&& t == s
            &&& effects.len() == n
            &&& forall|i: int|
                0 <= i < n ==> #[trigger] effects[i] == (EffectView::TellMonitors {
                    monitors: s.sd_monitors,
                    event: acts[i]->EmitSdEvent_event,
                })
        }),
    decreases n,
{
    if n > 0 {
        lemma_reported(s, acts, n - 1);
        assert(acts[n - 1] is EmitSdEvent);
    }
}

/// What a cycle sends: the repeated offers, then the repeated searches.
spec fn cycle_sends(s: StateView, now: u64) -> Seq<ActionView> {
    due_offers(s, now).map_values(offer_again(s)) + due_searches(s, now).map_values(ask_again(s))
}

proof fn lemma_cycle_sends(s: StateView, now: u64)
    ensures
        single_entries(
            cycle_sends(s, now),
            discovery_group(s),
            s.flags(false),
        ),
        periodic_actions(s, now) == cycle_sends(s, now) + ended(s, now).map_values(report_end()),
{
    lemma_periodic_actions(s, now);
    let acts = cycle_sends(s, now);
    let due = due_offers(s, now);
    let asked = due_searches(s, now);
    let g = discovery_group(s);
    assert forall|i: int| 0 <= i < acts.len() implies {
        let a = #[trigger] acts[i];
        let m = a->SendSd_message;
        &&& a == (ActionView::SendSd { message: m, target: g })
        &&& m.flags == s.flags(false)
        &&& m.entries.len() == 1
        &&& refers_within(m.entries[0], m.options.len() as int)
    } by {
        if i < due.len() {
            let (key, o) = due[i];
            let (ttl, ip) = (s.config.offer_ttl, s.config.advertised_ip);
            lemma_offer_says(key, o, s.flags(false), ttl, ip, g);
            offer_names_its_endpoints(key, o, s.flags(false), ttl, ip);
        } else {
            assert(acts[i] == ask_again(s)(asked[i - due.len()]));
        }
    }
}

/// What an entry of a cycle's message says.
proof fn lemma_carried_offer(
    r: SdMessageView,
    i: int,
    key: ServiceKey,
    offered: OfferedService,
    flags: u8,
    ttl: u32,
    advertised_ip: Option<crate::net::IpAddr>,
    g: SocketAddr,
)
    requires
        carries(
            r,
            i,
            offer_message(key, offered, flags, ttl, advertised_ip),
            offer_message(key, offered, flags, ttl, advertised_ip).entries[0],
        ),
        ttl <= 0xFF_FFFF,
    ensures
        entry_offers(r, r.entries[i], key, offered, ttl, advertised_ip),
        r.entries[i].encodable(),
{
    lemma_offer_says(key, offered, flags, ttl, advertised_ip, g);
}

/// What the cycle's message to the group says: for each offer that is to be repeated one entry,
/// and then one for each search that is to be repeated.
pub open spec fn repeats(s: StateView, now: u64, r: SdMessageView) -> bool {
    let due = due_offers(s, now);
    let asked = due_searches(s, now);
    &&& r.flags & 0x40 == 0
    &&& r.entries.len() == due.len() + asked.len()
    &&& forall|i: int|
        0 <= i < due.len() ==> entry_offers(
            r,
            #[trigger] r.entries[i],
            due[i].0,
            due[i].1,
            s.config.offer_ttl,
            s.config.advertised_ip,
        )
    &&& forall|i: int|
        due.len() <= i < due.len() + asked.len() ==> {
            let e = #[trigger] r.entries[i];
            let searched = asked[i - due.len()].0;
            &&& e.entry_type is FindService
            &&& e.service_id == searched.service_id
            &&& e.instance_id == searched.instance_id
            &&& e.major_version == searched.major_version
            &&& e.minor_version == 0xFFFF_FFFF
            &&& e.ttl == s.config.find_ttl
        }
}

proof fn lemma_cycle_message(s: StateView, now: u64)
    requires
        s.offered.len() <= 0x100_0000,
        endpoints_among(due_offers(s, now)) <= 256,
        s.find_requests.len() <= 0x100_0000,
        s.config.offer_ttl <= 0xFF_FFFF,
        s.config.find_ttl <= 0xFF_FFFF,
        due_offers(s, now).len() + due_searches(s, now).len() > 0,
    ensures
        ({
            let (_, r) = by_target(cycle_sends(s, now))[0];
            &&& repeats(s, now, r)
            &&& r.encodable()
            &&& clustered(periodic_actions(s, now)) == ended(s, now).map_values(
                report_end(),
            ).push(ActionView::SendSd { message: r, target: discovery_group(s) })
        }),
{
    let acts = cycle_sends(s, now);
    let due = due_offers(s, now);
    let asked = due_searches(s, now);
    let g = discovery_group(s);
    let flags = s.flags(false);
    lemma_options_sent(s, due, asked);
    crate::rows::lemma_filter_len(
        s.offered,
        |x: (ServiceKey, OfferedService)| to_repeat(x.1, s.config.cyclic_offer_delay, now),
    );
    crate::rows::lemma_filter_len(
        s.find_requests,
        |x: (ServiceKey, FindRequest)| to_ask_again(x.1, s.config.cyclic_offer_delay, now),
    );
    lemma_cycle_sends(s, now);
    lemma_gathered(acts, g, flags);
    lemma_clustered_cycle(acts, ended(s, now).map_values(report_end()), g, flags);
    let (_, r) = by_target(acts)[0];
    crate::runtime::state::flag_laws(s, false);
    assert forall|i: int| 0 <= i < due.len() implies entry_offers(
        r,
        #[trigger] r.entries[i],
        due[i].0,
        due[i].1,
        s.config.offer_ttl,
        s.config.advertised_ip,
    ) && r.entries[i].encodable() by {
        assert(acts[i] == offer_again(s)(due[i]));
        lemma_carried_offer(
            r,
            i,
            due[i].0,
            due[i].1,
            flags,
            s.config.offer_ttl,
            s.config.advertised_ip,
            g,
        );
    }
    assert forall|i: int| due.len() <= i < due.len() + asked.len() implies {
        let e = #[trigger] r.entries[i];
        let searched = asked[i - due.len()].0;
        &&& e.entry_type is FindService
        &&& e.service_id == searched.service_id
        &&& e.instance_id == searched.instance_id
        &&& e.major_version == searched.major_version
        &&& e.minor_version == 0xFFFF_FFFF
        &&& e.ttl == s.config.find_ttl
        &&& e.encodable()
    } by {
        assert(acts[i] == ask_again(s)(asked[i - due.len()]));
    }
    crate::discovery::sd_payload_size(r);
}

proof fn lemma_same_cycle(s: StateView, t: StateView, now: u64)
    requires
        t.offered == s.offered,
        t.find_requests == s.find_requests,
        t.discovered == s.discovered,
        t.config == s.config,
        t.multicast_has_wrapped_once == s.multicast_has_wrapped_once,
    ensures
        due_offers(t, now) == due_offers(s, now),
        due_searches(t, now) == due_searches(s, now),
        ended(t, now) == ended(s, now),
        forall|r: SdMessageView| #[trigger] repeats(t, now, r) == repeats(s, now, r),
        discovery_group(t) == discovery_group(s),
{
}

/// The state in which the periodic tasks run.
spec fn at_cycle(l: LoopView) -> StateView {
    StateView {
        last_periodic_cycle: Some(l.next_periodic_cycle_at),
        pending_offers_deadline: None,
        ..l.state
    }
}

proof fn lemma_cycle(l: LoopView, now: u64, reply: ChannelId)
    requires
        l.state.pending_initial_offers.len() == 0,
    ensures
        ({
            let t = at_cycle(l);
            let (u, effects) = carried_out(
                (after_periodic(t, now), clustered(periodic_actions(t, now))),
            );
            let (after, all) = reaction(l, LoopEvent::PeriodicDue, now, reply);
            &&& after.state == u
            &&& after.next_periodic_cycle_at == now + l.state.config.cyclic_offer_delay
                * 1_000_000
            &&& all == effects
        }),
{
    let s = StateView { last_periodic_cycle: Some(l.next_periodic_cycle_at), ..l.state };
    assert(initial_offer_actions(s, now) =~= Seq::<ActionView>::empty());
    assert(s.pending_initial_offers =~= Seq::<ServiceKey>::empty());
    let t = after_initial_offers(s, now);
    assert(t =~= at_cycle(l));
    lemma_one_executed(
        t,
        ActionView::Deliver {
            to: 0,
            message: crate::message::DeliveryView::HasSubscribers(true),
        },
    );
    let (u, effects) = carried_out(
        (after_periodic(t, now), clustered(periodic_actions(t, now))),
    );
    assert(Seq::<EffectView>::empty() + effects =~= effects);
}

proof fn lemma_cycle_carried_out(t: StateView, u: StateView, now: u64)
    requires
        t.offered.len() <= 0x100_0000,
        endpoints_among(due_offers(t, now)) <= 256,
        t.find_requests.len() <= 0x100_0000,
        t.config.offer_ttl <= 0xFF_FFFF,
        t.config.find_ttl <= 0xFF_FFFF,
    ensures
        ({
            let (v, effects) = carried_out((u, clustered(periodic_actions(t, now))));
            let gone = ended(t, now);
            let any = due_offers(t, now).len() + due_searches(t, now).len() > 0;
            &&& v == (if any {
                u.multicast_session_used()
            } else {
                u
            })
            &&& effects.len() == gone.len() + (if any {
                1int
            } else {
                0
            })
            &&& forall|i: int|
                0 <= i < gone.len() ==> #[trigger] effects[i] == (EffectView::TellMonitors {
                    monitors: u.sd_monitors,
                    event: SdEvent::ServiceExpired {
                        service_id: gone[i].0.service_id,
                        instance_id: gone[i].0.instance_id,
                    },
                })
            &&& any ==> {
                let data = effects.last()->SendSd_data;
                &&& effects.last() == (EffectView::SendSd { data, target: discovery_group(t) })
                &&& message_in(data) matches Some(r) && repeats(t, now, r)
                &&& session_in(data) == u.multicast_session_id
            }
        }),
{
    let gone = ended(t, now);
    let reports = gone.map_values(report_end());
    let acts = clustered(periodic_actions(t, now));
    let n = reports.len() as int;
    if due_offers(t, now).len() + due_searches(t, now).len() > 0 {
        lemma_cycle_message(t, now);
        let (_, r) = by_target(cycle_sends(t, now))[0];
        lemma_read(r, u.multicast_session_id);
        lemma_reported(u, acts, n);
    } else {
        lemma_cycle_sends(t, now);
        lemma_options_sent(t, due_offers(t, now), due_searches(t, now));
        lemma_clustered_cycle(
            cycle_sends(t, now),
            reports,
            discovery_group(t),
            t.flags(false),
        );
        lemma_reported(u, acts, n);
    }
}

/// Where no first offer is held back, a cycle sends one message to the group, and none where
/// nothing is due: it offers every announced service whose offer is to be repeated, for the
/// configured lifetime and at the service's endpoints, and repeats every search that is to be
/// repeated, and nothing else. The monitors hear of every service whose lifetime has passed. What
/// was sent counts as sent now, and the next cycle is one delay away. One message has room for 256
/// endpoints.
pub proof fn a_cycle_repeats_what_is_due(
    l: LoopView,
    now: u64,
    reply: ChannelId,
    key: ServiceKey,
)
    requires
        l.wf(),
        l.state.pending_initial_offers.len() == 0,
        l.state.offered.len() <= 0x100_0000,
        endpoints_among(due_offers(l.state, now)) <= 256,
        l.state.find_requests.len() <= 0x100_0000,
        l.state.config.offer_ttl <= 0xFF_FFFF,
        l.state.config.find_ttl <= 0xFF_FFFF,
    ensures
        ({
            let (after, effects) = reaction(l, LoopEvent::PeriodicDue, now, reply);
            let s = l.state;
            let t = after.state;
            let delay = s.config.cyclic_offer_delay;
            let gone = ended(s, now);
            let any = due_offers(s, now).len() + due_searches(s, now).len() > 0;
            &&& effects.len() == gone.len() + (if any {
                1int
            } else {
                0
            })
            &&& forall|i: int|
                0 <= i < gone.len() ==> #[trigger] effects[i] == (EffectView::TellMonitors {
                    monitors: s.sd_monitors,
                    event: SdEvent::ServiceExpired {
                        service_id: gone[i].0.service_id,
                        instance_id: gone[i].0.instance_id,
                    },
                })
            &&& any ==> {
                let data = effects.last()->SendSd_data;
                &&& effects.last() == (EffectView::SendSd { data, target: discovery_group(s) })
                &&& message_in(data) matches Some(r) && repeats(s, now, r)
            }
            &&& lookup(t.offered, key) == (match lookup(s.offered, key) {
                Some(o) => if to_repeat(o, delay, now) {
                    Some(OfferedService { last_offer: now, ..o })
                } else {
                    Some(o)
                },
                None => None,
            })
            &&& lookup(t.find_requests, key) == (match lookup(s.find_requests, key) {
                Some(f) => if f.repetitions_left == 0 {
                    None
                } else if to_ask_again(f, delay, now) {
                    Some(
                        FindRequest {
                            last_find: now,
                            repetitions_left: (f.repetitions_left - 1) as u32,
                            ..f
                        },
                    )
                } else {
                    Some(f)
                },
                None => None,
            })
            &&& after.next_periodic_cycle_at == now + delay * 1_000_000
            &&& t.last_periodic_cycle == Some(l.next_periodic_cycle_at)
            &&& t == (StateView {
                offered: t.offered,
                find_requests: t.find_requests,
                discovered: t.discovered,
                server_subscribers: t.server_subscribers,
                pending_offers_deadline: t.pending_offers_deadline,
                last_periodic_cycle: t.last_periodic_cycle,
                multicast_session_id: t.multicast_session_id,
                multicast_has_wrapped_once: t.multicast_has_wrapped_once,
                ..s
            })
        }),
{
    let s = l.state;
    let t = at_cycle(l);
    let delay = s.config.cyclic_offer_delay;
    lemma_cycle(l, now, reply);
    lemma_cycle_carried_out(t, after_periodic(t, now), now);
    lemma_same_cycle(s, t, now);
    lemma_map_table(s.offered, offered_again(delay, now));
    lemma_filter_distinct(s.find_requests, still_searching());
    lemma_map_table(s.find_requests.filter(still_searching()), searched_again(delay, now));
}

/// Repeated offers keep a service alive: a host that reads what a cycle sends knows every service
/// whose offer was repeated, at the endpoints at which it is offered, and again for the whole
/// configured lifetime.
pub proof fn repeated_offers_keep_services_alive(
    server: LoopView,
    now: u64,
    reply: ChannelId,
    data: Vec<u8>,
    client: LoopView,
    from: SocketAddr,
    later: u64,
    i: int,
)
    requires
        server.wf(),
        client.wf(),
        server.state.pending_initial_offers.len() == 0,
        server.state.offered.len() <= 0x100_0000,
        endpoints_among(due_offers(server.state, now)) <= 256,
        server.state.find_requests.len() <= 0x100_0000,
        0 < server.state.config.offer_ttl <= 0xFF_FFFF,
        server.state.config.find_ttl <= 0xFF_FFFF,
        forall|j: int|
            0 <= j < server.state.offered.len() ==> (#[trigger] server.state.offered[j]).0.major_version
                == server.state.offered[j].1.major_version,
        0 <= i < due_offers(server.state, now).len(),
        due_offers(server.state, now)[i].1.udp_endpoint is Some || due_offers(
            server.state,
            now,
        )[i].1.tcp_endpoint is Some,
        data@ == reaction(server, LoopEvent::PeriodicDue, now, reply).1.last()->SendSd_data,
        !shows_reboot(client.state, from.ip, message_in(data@)->0.flags, session_in(data@)),
    ensures
        ({
            let (key, offered) = due_offers(server.state, now)[i];
            let config = server.state.config;
            lookup(
                reaction(client, LoopEvent::SdPacket { data, from }, later, reply).0.state.discovered,
                key,
            ) == Some(
                DiscoveredService {
                    udp_endpoint: seen_from(
                        named_at(offered.udp_endpoint, config.advertised_ip),
                        from,
                    ),
                    tcp_endpoint: seen_from(
                        named_at(offered.tcp_endpoint, config.advertised_ip),
                        from,
                    ),
                    sd_endpoint: from,
                    minor_version: offered.minor_version,
                    ttl: config.offer_ttl,
                    ttl_expires: lifetime_end(config.offer_ttl, later),
                },
            )
        }),
{
    let s = server.state;
    let due = due_offers(s, now);
    let (key, offered) = due[i];
    let p = |x: (ServiceKey, OfferedService)| to_repeat(x.1, s.config.cyclic_offer_delay, now);
    a_cycle_repeats_what_is_due(server, now, reply, key);
    lemma_filter_distinct(s.offered, p);
    assert forall|j: int| 0 <= j < due.len() implies (#[trigger] due[j]).0.major_version
        == due[j].1.major_version by {
        assert(due.contains(due[j]));
        crate::rows::lemma_filter_contains(s.offered, p, due[j]);
        let k = choose|k: int| 0 <= k < s.offered.len() && s.offered[k] == due[j];
        assert(s.offered[k].0.major_version == s.offered[k].1.major_version);
    }
    let r = message_in(data@)->0;
    let e = r.entries[i];
    assert(due[i].0.major_version == due[i].1.major_version);
    assert(spoken_of(e) == key);
    assert forall|j: int| i < j < r.entries.len() implies !is_about(
        #[trigger] r.entries[j],
        spoken_of(e),
    ) by {
        if j < due.len() {
            assert(entry_offers(
                r,
                r.entries[j],
                due[j].0,
                due[j].1,
                s.config.offer_ttl,
                s.config.advertised_ip,
            ));
            assert(due[i].0 != due[j].0);
            assert(due[j].0.major_version == due[j].1.major_version);
        } else {
            assert(r.entries[j].entry_type is FindService);
        }
    }
    every_offer_of_a_message_is_believed(client, data, r, from, later, reply, i);
}

proof fn lemma_first_offers_alike(s: StateView, t: StateView, now: u64, n: int)
    requires
        t == (StateView { last_periodic_cycle: t.last_periodic_cycle, ..s }),
    ensures
        initial_offers(t, now, n) == initial_offers(s, now, n),
    decreases n,
{
    if n > 0 {
        lemma_first_offers_alike(s, t, now, n - 1);
    }
}

/// A cycle first sends the first offers that are held back, exactly as when they are due by
/// themselves, and then repeats what is due after that.
pub proof fn a_cycle_sends_first_offers_first(l: LoopView, now: u64, reply: ChannelId)
    ensures
        ({
            let (mid, first) = reaction(l, LoopEvent::OffersDue, now, reply);
            let (after, second) = reaction(mid, LoopEvent::PeriodicDue, now, reply);
            reaction(l, LoopEvent::PeriodicDue, now, reply) == (after, first + second)
        }),
{
    let s = l.state;
    let t = StateView { last_periodic_cycle: Some(l.next_periodic_cycle_at), ..s };
    let n = s.pending_initial_offers.len() as int;
    lemma_first_offers_alike(s, t, now, n);
    let (mid, first) = reaction(l, LoopEvent::OffersDue, now, reply);
    lemma_flush_alike(l, now, reply);
    let (t2, first2) = carried_out(
        (after_initial_offers(t, now), initial_offer_actions(t, now)),
    );
    assert(first2 == first);
    assert(t2 == (StateView { last_periodic_cycle: t.last_periodic_cycle, ..mid.state }));
    lemma_cycle(mid, now, reply);
    assert(at_cycle(mid) == t2);
    let (u, second) = carried_out(
        (after_periodic(t2, now), clustered(periodic_actions(t2, now))),
    );
    let (after, all) = cycle_reaction(l, now);
    assert(after.state == u);
    assert(all == first + second);
    assert(mid.state.config == l.state.config);
    let (end, _) = reaction(mid, LoopEvent::PeriodicDue, now, reply);
    assert(end == after);
}

proof fn lemma_flush_alike(l: LoopView, now: u64, reply: ChannelId)
    ensures
        ({
            let s = l.state;
            let t = StateView { last_periodic_cycle: Some(l.next_periodic_cycle_at), ..s };
            let (mid, first) = reaction(l, LoopEvent::OffersDue, now, reply);
            let (t2, first2) = carried_out(
                (after_initial_offers(t, now), initial_offer_actions(t, now)),
            );
            &&& first2 == first
            &&& mid == (LoopView { state: mid.state, ..l })
            &&& t2 == (StateView { last_periodic_cycle: t.last_periodic_cycle, ..mid.state })
            &&& mid.state.pending_initial_offers.len() == 0
            &&& mid.state.pending_offers_deadline is None
            &&& mid.state.config == s.config
        }),
{
    let s = l.state;
    let t = StateView { last_periodic_cycle: Some(l.next_periodic_cycle_at), ..s };
    let n = s.pending_initial_offers.len() as int;
    lemma_first_offers_alike(s, t, now, n);
    let m = initial_offers(s, now, n).1;
    let a = ActionView::SendSd { message: m, target: discovery_group(s) };
    lemma_one_executed(after_initial_offers(s, now), a);
    lemma_one_executed(after_initial_offers(t, now), a);
    let (u, v) = (after_initial_offers(s, now), after_initial_offers(t, now));
    assert(v =~= (StateView { last_periodic_cycle: t.last_periodic_cycle, ..u }));
    if n > 0 {
        assert(initial_offer_actions(s, now) =~= seq![a]);
        assert(initial_offer_actions(t, now) =~= seq![a]);
    } else {
        assert(initial_offer_actions(s, now) =~= Seq::<ActionView>::empty());
        assert(initial_offer_actions(t, now) =~= Seq::<ActionView>::empty());
    }
}

} // verus!
