//! Merging discovery messages that go to one target.

use crate::discovery::{option_run, SdEntry, SdMessage, SdMessageView, SdOption};
use crate::net::SocketAddr;
use crate::runtime::action::{push, views, Action, ActionView};
use crate::table::{distinct, has_key, lookup, map_table, put, Table};
use vstd::prelude::*;

verus! {

/// An index that is moved behind `offset` options; it stops at the largest index.
pub open spec fn moved(index: u8, offset: u8) -> u8 {
    if index + offset > 255 {
        255
    } else {
        (index + offset) as u8
    }
}

/// An entry whose options stand behind `offset` other options.
pub open spec fn shifted(entry: SdEntry, offset: u8) -> SdEntry {
    SdEntry {
        index_1st_option: if entry.num_options_1 > 0 {
            moved(entry.index_1st_option, offset)
        } else {
            entry.index_1st_option
        },
        index_2nd_option: if entry.num_options_2 > 0 {
            moved(entry.index_2nd_option, offset)
        } else {
            entry.index_2nd_option
        },
        ..entry
    }
}

/// All entries, with their options behind `offset` other options.
pub open spec fn shifted_all(entries: Seq<SdEntry>, offset: u8) -> Seq<SdEntry> {
    entries.map_values(|e: SdEntry| shifted(e, offset))
}

/// `base` followed by the options and entries of `m`.
pub open spec fn merged(base: SdMessageView, m: SdMessageView) -> SdMessageView {
    SdMessageView {
        flags: base.flags,
        entries: base.entries + shifted_all(m.entries, (base.options.len() % 256) as u8),
        options: base.options + m.options,
    }
}

/// What has been gathered for a target, or an empty message with the flags of `m`.
pub open spec fn gathered(
    t: Seq<(SocketAddr, SdMessageView)>,
    target: SocketAddr,
    m: SdMessageView,
) -> SdMessageView {
    match lookup(t, target) {
        Some(base) => base,
        None => SdMessageView::empty(m.flags),
    }
}

/// The discovery messages among the actions, merged by target.
pub open spec fn by_target(actions: Seq<ActionView>) -> Seq<(SocketAddr, SdMessageView)>
    decreases actions.len(),
{
    if actions.len() == 0 {
        Seq::empty()
    } else {
        let t = by_target(actions.drop_last());
        match actions.last() {
            ActionView::SendSd { message, target } => put(
                t,
                target,
                merged(gathered(t, target, message), message),
            ),
            _ => t,
        }
    }
}

/// Wants the actions that are no discovery messages.
pub open spec fn not_sd() -> spec_fn(ActionView) -> bool {
    |a: ActionView| !(a is SendSd)
}

/// One action per target.
pub open spec fn sends(t: Seq<(SocketAddr, SdMessageView)>) -> Seq<ActionView> {
    t.map_values(|e: (SocketAddr, SdMessageView)| ActionView::SendSd { message: e.1, target: e.0 })
}

/// The other actions in their order, then one discovery message per target.
pub open spec fn clustered(actions: Seq<ActionView>) -> Seq<ActionView> {
    actions.filter(not_sd()) + sends(by_target(actions))
}

spec fn message_view() -> spec_fn(SdMessage) -> SdMessageView {
    |m: SdMessage| m@
}

fn merge_into(base: &mut SdMessage, m: &SdMessage)
    ensures
        final(base)@ == merged(old(base)@, m@),
{
    let offset: u8 = (base.options.len() % 256) as u8;
    let ghost b = base@;
    let mut i: usize = 0;
    while i < m.options.len()
        invariant
            0 <= i <= m.options@.len(),
            base@.options == b.options + m.options@.take(i as int),
            base@.entries == b.entries,
            base@.flags == b.flags,
        decreases m.options@.len() - i,
    {
        proof {
            crate::rows::lemma_take_step(m.options@, i as int);
        }
        base.add_option(m.options[i]);
        i += 1;
        assert(base@.options =~= b.options + m.options@.take(i as int));
    }
    assert(m.options@.take(i as int) =~= m.options@);
    let mut k: usize = 0;
    while k < m.entries.len()
        invariant
            0 <= k <= m.entries@.len(),
            offset == b.options.len() % 256,
            base@.options == b.options + m.options@,
            base@.entries == b.entries + shifted_all(m.entries@.take(k as int), offset),
            base@.flags == b.flags,
        decreases m.entries@.len() - k,
    {
        proof {
            crate::rows::lemma_take_step(m.entries@, k as int);
        }
        let mut entry = m.entries[k];
        if entry.num_options_1 > 0 {
            entry.index_1st_option = entry.index_1st_option.saturating_add(offset);
        }
        if entry.num_options_2 > 0 {
            entry.index_2nd_option = entry.index_2nd_option.saturating_add(offset);
        }
        assert(entry == shifted(m.entries@[k as int], offset));
        base.add_entry(entry);
        k += 1;
        assert(base@.entries =~= b.entries + shifted_all(m.entries@.take(k as int), offset));
    }
    assert(m.entries@.take(k as int) =~= m.entries@);
}

/// Merges the discovery messages that go to one target into one message, behind the other
/// actions. The first message to a target gives the flags; the entries keep referring to
/// their own options.
pub fn cluster_sd_actions(actions: Vec<Action>) -> (r: Vec<Action>)
    ensures
        views(r@) == clustered(views(actions@)),
{
    let ghost all = views(actions@);
    let mut table: Table<SocketAddr, SdMessage> = Table::new();
    let mut others: Vec<Action> = Vec::new();
    proof {
        reveal(Seq::filter);
        assert(all.take(0) =~= Seq::empty());
        assert(map_table(table@, message_view()) =~= by_target(all.take(0)));
        assert(views(others@) =~= all.take(0).filter(not_sd()));
    }
    for action in it: actions
        invariant
            all == views(it.seq()),
            distinct(table@),
            map_table(table@, message_view()) == by_target(all.take(it.index() as int)),
            views(others@) == all.take(it.index() as int).filter(not_sd()),
    {
        let ghost n = it.index() as int;
        proof {
            crate::rows::lemma_take_step(all, n);
            crate::rows::lemma_filter_step(all, n, not_sd());
            crate::table::lemma_map_table(table@, message_view());
            assert(all[n] == action@);
        }
        let ghost t = by_target(all.take(n));
        match action {
            Action::SendSd { message, target } => {
                match table.position(&target) {
                    Some(i) => {
                        proof {
                            crate::table::lemma_lookup_at(table@, i as int);
                            crate::table::lemma_lookup_at(t, i as int);
                        }
                        let ghost before = table@;
                        let base = table.value_mut(i);
                        merge_into(base, &message);
                        proof {
                            let after = merged(gathered(t, target, message@), message@);
                            assert(table@ =~= put(before, target, table@[i as int].1));
                            crate::table::lemma_put(before, target, table@[i as int].1);
                            assert(map_table(table@, message_view()) =~= put(t, target, after));
                        }
                    },
                    None => {
                        let mut base = SdMessage::new(message.flags);
                        merge_into(&mut base, &message);
                        table.insert(target, base);
                    },
                }
            },
            other => {
                push(&mut others, other);
            },
        }
    }
    proof {
        assert(all.take(all.len() as int) =~= all);
    }
    drain_into(table, &mut others);
    others
}

fn drain_into(table: Table<SocketAddr, SdMessage>, others: &mut Vec<Action>)
    ensures
        views(final(others)@) == views(old(others)@) + sends(map_table(table@, message_view())),
{
    let ghost before = views(others@);
    let ghost t = table@;
    let entries = table.into_entries();
    assert(before =~= before + sends(map_table(t.take(0), message_view())));
    for entry in it: entries
        invariant
            it.seq() == t,
            views(others@) == before + sends(
                map_table(t.take(it.index() as int), message_view()),
            ),
    {
        let ghost n = it.index() as int;
        proof {
            crate::rows::lemma_take_step(t, n);
        }
        let (target, message) = entry;
        push(others, Action::SendSd { message, target });
        assert(views(others@) =~= before + sends(map_table(t.take(n + 1), message_view())));
    }
    assert(t.take(t.len() as int) =~= t);
}

/// The options that an entry refers to are there.
pub open spec fn refers_within(entry: SdEntry, n: int) -> bool {
    &&& entry.num_options_1 > 0 ==> entry.index_1st_option + entry.num_options_1 <= n
    &&& entry.num_options_2 > 0 ==> entry.index_2nd_option + entry.num_options_2 <= n
}

/// Every entry refers to options that are there.
pub open spec fn well_referenced(m: SdMessageView) -> bool {
    forall|j: int|
        0 <= j < m.entries.len() ==> refers_within(
            #[trigger] m.entries[j],
            m.options.len() as int,
        )
}

/// The same entry, but for where its options stand.
pub open spec fn same_but_for_indices(a: SdEntry, b: SdEntry) -> bool {
    a == (SdEntry {
        index_1st_option: a.index_1st_option,
        index_2nd_option: a.index_2nd_option,
        ..b
    })
}

/// Message `r` holds, at position `k`, the entry `entry` of message `m` with the same
/// options.
pub open spec fn carries(r: SdMessageView, k: int, m: SdMessageView, entry: SdEntry) -> bool {
    &&& 0 <= k < r.entries.len()
    &&& same_but_for_indices(r.entries[k], entry)
    &&& refers_within(r.entries[k], r.options.len() as int)
    &&& r.options_of(r.entries[k]) == m.options_of(entry)
}

/// The number of entries that the actions send to a target.
pub open spec fn entries_to(actions: Seq<ActionView>, target: SocketAddr) -> nat
    decreases actions.len(),
{
    if actions.len() == 0 {
        0
    } else {
        entries_to(actions.drop_last(), target) + match actions.last() {
            ActionView::SendSd { message, target: t } if t == target => message.entries.len(),
            _ => 0,
        }
    }
}

proof fn lemma_run_of_merged(a: Seq<SdOption>, b: Seq<SdOption>, i: u8, n: u8)
    requires
        n > 0 ==> i + n <= b.len(),
        a.len() + b.len() <= 256,
    ensures
        n > 0 ==> option_run(a + b, moved(i, (a.len() % 256) as u8), n) == option_run(b, i, n),
{
    if n > 0 {
        assert(a.len() < 256);
        assert(a.len() % 256 == a.len());
        assert(option_run(a + b, moved(i, (a.len() % 256) as u8), n) =~= option_run(b, i, n));
    }
}

proof fn lemma_run_kept(a: Seq<SdOption>, b: Seq<SdOption>, i: u8, n: u8)
    requires
        n > 0 ==> i + n <= a.len(),
    ensures
        option_run(a + b, i, n) == option_run(a, i, n),
{
    assert(option_run(a + b, i, n) =~= option_run(a, i, n));
}

proof fn lemma_empty_run(a: Seq<SdOption>, i: u8)
    ensures
        option_run(a, i, 0) == Seq::<SdOption>::empty(),
{
    assert(option_run(a, i, 0) =~= Seq::<SdOption>::empty());
}

/// An entry that is merged behind other options still refers to its own.
pub proof fn merging_keeps_references(base: SdMessageView, m: SdMessageView, j: int)
    requires
        0 <= j < m.entries.len(),
        refers_within(m.entries[j], m.options.len() as int),
        base.options.len() + m.options.len() <= 256,
    ensures
        carries(merged(base, m), base.entries.len() + j, m, m.entries[j]),
{
    let r = merged(base, m);
    let e = m.entries[j];
    let x = r.entries[base.entries.len() + j];
    assert(x == shifted(e, (base.options.len() % 256) as u8));
    lemma_run_of_merged(base.options, m.options, e.index_1st_option, e.num_options_1);
    lemma_run_of_merged(base.options, m.options, e.index_2nd_option, e.num_options_2);
    lemma_empty_run(r.options, x.index_1st_option);
    lemma_empty_run(r.options, x.index_2nd_option);
    lemma_empty_run(m.options, e.index_1st_option);
    lemma_empty_run(m.options, e.index_2nd_option);
}

/// At most one message goes to each target, and one does exactly where some did before.
pub proof fn clustering_sends_one_message_per_target(actions: Seq<ActionView>, target: SocketAddr)
    ensures
        distinct(by_target(actions)),
        has_key(by_target(actions), target) <==> exists|i: int|
            0 <= i < actions.len() && (#[trigger] actions[i] matches ActionView::SendSd {
                target: t,
                ..
            } && t == target),
    decreases actions.len(),
{
    if actions.len() > 0 {
        let rest = actions.drop_last();
        clustering_sends_one_message_per_target(rest, target);
        let t = by_target(rest);
        let last = actions.last();
        if let ActionView::SendSd { message, target: to } = last {
            crate::table::lemma_put(t, to, merged(gathered(t, to, message), message));
            assert(has_key(by_target(actions), target) <==> has_key(t, target) || to == target);
        }
        if exists|i: int|
            0 <= i < rest.len() && (#[trigger] rest[i] matches ActionView::SendSd {
                target: t,
                ..
            } && t == target) {
            let i = choose|i: int|
                0 <= i < rest.len() && (#[trigger] rest[i] matches ActionView::SendSd {
                    target: t,
                    ..
                } && t == target);
            assert(actions[i] == rest[i]);
        }
        if exists|i: int|
            0 <= i < actions.len() && (#[trigger] actions[i] matches ActionView::SendSd {
                target: t,
                ..
            } && t == target) {
            let i = choose|i: int|
                0 <= i < actions.len() && (#[trigger] actions[i] matches ActionView::SendSd {
                    target: t,
                    ..
                } && t == target);
            if i < rest.len() {
                assert(rest[i] == actions[i]);
            }
        }
        assert(actions[actions.len() - 1] == last);
    }
}

/// The message to a target has as many entries as all messages to it together.
pub proof fn clustering_keeps_the_number_of_entries(actions: Seq<ActionView>, target: SocketAddr)
    ensures
        entries_to(actions, target) == (match lookup(by_target(actions), target) {
            Some(r) => r.entries.len(),
            None => 0,
        }),
    decreases actions.len(),
{
    if actions.len() > 0 {
        let rest = actions.drop_last();
        clustering_keeps_the_number_of_entries(rest, target);
        clustering_sends_one_message_per_target(rest, target);
        if let ActionView::SendSd { message, target: to } = actions.last() {
            let t = by_target(rest);
            crate::table::lemma_put(t, to, merged(gathered(t, to, message), message));
        }
    }
}

/// The first message to a target gives the flags.
pub proof fn clustering_keeps_the_first_flags(actions: Seq<ActionView>, i: int)
    requires
        0 <= i < actions.len(),
        actions[i] is SendSd,
        forall|j: int|
            0 <= j < i ==> (#[trigger] actions[j] matches ActionView::SendSd { target, .. } ==> target
                != actions[i]->SendSd_target),
    ensures
        lookup(by_target(actions), actions[i]->SendSd_target) matches Some(r) && r.flags
            == actions[i]->SendSd_message.flags,
    decreases actions.len(),
{
    let rest = actions.drop_last();
    let target = actions[i]->SendSd_target;
    let t = by_target(rest);
    clustering_sends_one_message_per_target(rest, target);
    if i < rest.len() {
        assert(rest[i] == actions[i]);
        assert forall|j: int|
            0 <= j < i implies (#[trigger] rest[j] matches ActionView::SendSd { target, .. } ==> target
            != rest[i]->SendSd_target) by {
            assert(rest[j] == actions[j]);
        }
        clustering_keeps_the_first_flags(rest, i);
        if let ActionView::SendSd { message, target: to } = actions.last() {
            crate::table::lemma_put(t, to, merged(gathered(t, to, message), message));
        }
    } else {
        let message = actions[i]->SendSd_message;
        assert(!has_key(t, target)) by {
            if has_key(t, target) {
                let j = choose|j: int|
                    0 <= j < rest.len() && (#[trigger] rest[j] matches ActionView::SendSd {
                        target: x,
                        ..
                    } && x == target);
                assert(rest[j] == actions[j]);
            }
        }
        crate::table::lemma_put(t, target, merged(gathered(t, target, message), message));
    }
}

/// No entry is lost: wherever the merged message to a target has room for all options,
/// every entry of every message to that target is in it, and refers to the same options.
pub proof fn clustering_carries_every_entry(actions: Seq<ActionView>, i: int, j: int)
    requires
        0 <= i < actions.len(),
        actions[i] is SendSd,
        0 <= j < actions[i]->SendSd_message.entries.len(),
        well_referenced(actions[i]->SendSd_message),
        lookup(by_target(actions), actions[i]->SendSd_target)->0.options.len() <= 256,
    ensures
        has_key(by_target(actions), actions[i]->SendSd_target),
        exists|k: int| #[trigger]
            carries(
                lookup(by_target(actions), actions[i]->SendSd_target)->0,
                k,
                actions[i]->SendSd_message,
                actions[i]->SendSd_message.entries[j],
            ),
    decreases actions.len(),
{
    let rest = actions.drop_last();
    let target = actions[i]->SendSd_target;
    let m = actions[i]->SendSd_message;
    let e = m.entries[j];
    let t = by_target(rest);
    clustering_sends_one_message_per_target(rest, target);
    clustering_sends_one_message_per_target(actions, target);
    let r = lookup(by_target(actions), target)->0;
    if i == rest.len() {
        let base = gathered(t, target, m);
        crate::table::lemma_put(t, target, merged(base, m));
        merging_keeps_references(base, m, j);
        assert(carries(r, base.entries.len() + j, m, e));
    } else {
        assert(rest[i] == actions[i]);
        if let ActionView::SendSd { message, target: to } = actions.last() {
            let base = gathered(t, to, message);
            crate::table::lemma_put(t, to, merged(base, message));
            if to == target {
                let old_r = lookup(t, target)->0;
                assert(has_key(t, target));
                assert(r == merged(old_r, message));
                clustering_carries_every_entry(rest, i, j);
                let k = choose|k: int| carries(old_r, k, m, m.entries[j]);
                let x = old_r.entries[k];
                assert(r.entries[k] == x);
                lemma_run_kept(
                    old_r.options,
                    message.options,
                    x.index_1st_option,
                    x.num_options_1,
                );
                lemma_run_kept(
                    old_r.options,
                    message.options,
                    x.index_2nd_option,
                    x.num_options_2,
                );
                assert(carries(r, k, m, e));
            } else {
                clustering_carries_every_entry(rest, i, j);
            }
        } else {
            clustering_carries_every_entry(rest, i, j);
        }
    }
}

} // verus!
