//! Folding patrol's events before it is woken.
//!
//! Of the health changes that are still pending only the latest is kept, and an incident that was
//! opened and resolved before anybody was told is closed without waking anybody. What is folded away
//! stays on record, with a pointer to the event that is left.
use crate::role_inbox;
use crate::roles;
use crate::roles::Role;
use crate::rows::{InboxEvent, InboxEventView};
use crate::store::{Store, StoreView};
use crate::table;
use crate::table::Row;
use crate::text;
use crate::inbox;
use vstd::prelude::*;
use vstd::string::*;

verus! {

/// Health changes that nobody was told of yet.
pub open spec fn pending_health() -> spec_fn(InboxEventView) -> bool {
    |e: InboxEventView| e.state == "pending"@ && e.kind == "health_changed"@
}

/// An event that was folded into another.
pub open spec fn folded_into(target: Seq<char>, now: Seq<char>) -> spec_fn(InboxEventView) -> InboxEventView {
    |e: InboxEventView|
        (InboxEventView {
            state: "handled"@,
            acked_by: Some("daemon"@),
            merged_into: Some(target),
            updated_at: now,
            ..e
        })
}

/// The inbox after a list of events were folded into others, one after the other, and how many were.
pub open spec fn fold_each(inbox: Seq<InboxEventView>, steps: Seq<(Seq<char>, Seq<char>)>, now: Seq<char>) -> (
    Seq<InboxEventView>,
    nat,
)
    decreases steps.len(),
{
    if steps.len() == 0 {
        (inbox, 0)
    } else {
        let before = fold_each(inbox, steps.drop_last(), now);
        let hit = inbox::id_in_state(steps.last().0, "pending"@);
        (table::changed(before.0, hit, folded_into(steps.last().1, now)), before.1 + table::hits(before.0, hit))
    }
}

/// The pending health changes, the latest first.
pub open spec fn health_list(inbox: Seq<InboxEventView>) -> Seq<InboxEventView> {
    table::ordered(inbox.filter(pending_health()), role_inbox::newer_by_id())
}

/// Every pending health change but the latest goes into the latest.
pub open spec fn health_steps(inbox: Seq<InboxEventView>) -> Seq<(Seq<char>, Seq<char>)> {
    let list = health_list(inbox);
    if list.len() == 0 {
        seq![]
    } else {
        Seq::new((list.len() - 1) as nat, |i: int| (list[i + 1].id, list[0].id))
    }
}

/// The key under which an incident is reported as resolved, given that of its opening.
pub open spec fn resolved_key(opened: Seq<char>) -> Seq<char> {
    if opened.len() >= 6 {
        opened.take(opened.len() - 6) + "resolved"@
    } else {
        "resolved"@
    }
}

/// An incident that was opened and nobody was told of yet.
pub open spec fn pending_opening(e: InboxEventView) -> bool {
    e.kind == "incident_opened"@ && e.state == "pending"@
}

/// The pending report that the incident of this opening is over.
pub open spec fn resolves(opened: InboxEventView) -> spec_fn(InboxEventView) -> bool {
    |r: InboxEventView| r.state == "pending"@ && r.event_key == resolved_key(opened.event_key)
}

/// What is folded for one opening: the opening and the report that it is over, both into the latter.
pub open spec fn flap_steps_of(inbox: Seq<InboxEventView>, o: InboxEventView, n: nat) -> Seq<(Seq<char>, Seq<char>)>
    decreases n,
{
    if n == 0 || !pending_opening(o) {
        seq![]
    } else {
        let before = flap_steps_of(inbox, o, (n - 1) as nat);
        let r = inbox[n - 1];
        if (resolves(o))(r) {
            before.push((o.id, r.id)).push((r.id, r.id))
        } else {
            before
        }
    }
}

/// What is folded because it opened and closed before anybody was told.
pub open spec fn flap_steps(inbox: Seq<InboxEventView>, n: nat) -> Seq<(Seq<char>, Seq<char>)>
    decreases n,
{
    if n == 0 {
        seq![]
    } else {
        flap_steps(inbox, (n - 1) as nat) + flap_steps_of(inbox, inbox[n - 1], inbox.len())
    }
}

/// The inbox after folding, and how many events were folded.
pub open spec fn coalesced(inbox: Seq<InboxEventView>, now: Seq<char>) -> (Seq<InboxEventView>, nat) {
    let a = fold_each(inbox, health_steps(inbox), now);
    let b = fold_each(a.0, flap_steps(a.0, a.0.len()), now);
    (b.0, a.1 + b.1)
}

/// A count as far as it can be held.
spec fn capped(n: nat) -> nat {
    if n <= usize::MAX {
        n
    } else {
        usize::MAX as nat
    }
}

spec fn pairs(v: Seq<(String, String)>) -> Seq<(Seq<char>, Seq<char>)> {
    v.map_values(|p: (String, String)| (p.0@, p.1@))
}

fn fold_steps(s: &mut Store, now: &str, steps: &Vec<(String, String)>, so_far: usize) -> (n: usize)
    ensures
        ({
            let after = fold_each(old(s)@.inbox, pairs(steps@), now@);
            &&& final(s)@ == (StoreView { inbox: after.0, ..old(s)@ })
            &&& n == capped(so_far as nat + after.1)
        }),
{
    let ghost was = s@.inbox;
    let mut i: usize = 0;
    let mut n: usize = so_far;
    assert(pairs(steps@).take(0) =~= seq![]);
    while i < steps.len()
        invariant
            i <= steps.len(),
            was == old(s)@.inbox,
            ({
                let upto = fold_each(was, pairs(steps@).take(i as int), now@);
                &&& s@ == (StoreView { inbox: upto.0, ..old(s)@ })
                &&& n == capped(so_far as nat + upto.1)
            }),
        decreases steps.len() - i,
    {
        let id = steps[i].0.as_str();
        let target = steps[i].1.as_str();
        let ghost upto = pairs(steps@).take(i as int + 1);
        assert(upto.drop_last() =~= pairs(steps@).take(i as int));
        assert(upto.last() == (id@, target@));
        let k = table::change(
            &mut s.inbox,
            |e: &InboxEvent| -> (b: bool)
                ensures b == (inbox::id_in_state(id@, "pending"@))(e@)
                { text::same(e.id.as_str(), id) && text::same(e.state.as_str(), "pending") },
            |e: &InboxEvent| -> (x: InboxEvent)
                ensures x@ == (folded_into(target@, now@))(e@)
                {
                    InboxEvent {
                        state: "handled".to_owned(),
                        acked_by: Some("daemon".to_owned()),
                        merged_into: Some(target.to_owned()),
                        updated_at: now.to_owned(),
                        ..e.copied()
                    }
                },
            Ghost(inbox::id_in_state(id@, "pending"@)),
            Ghost(folded_into(target@, now@)),
        );
        n = n.saturating_add(k);
        i += 1;
    }
    assert(pairs(steps@).take(i as int) =~= pairs(steps@));
    n
}

fn health_pairs(s: &Store) -> (r: Vec<(String, String)>)
    ensures
        pairs(r@) == health_steps(s@.inbox),
{
    let rows = table::select(&s.inbox, |e: &InboxEvent| -> (b: bool)
        ensures b == (pending_health())(e@)
        { text::same(e.state.as_str(), "pending") && text::same(e.kind.as_str(), "health_changed") }, Ghost(
        pending_health(),
    ));
    let list = table::arrange(rows, |a: &InboxEvent, b: &InboxEvent| -> (c: bool)
        ensures c == (role_inbox::newer_by_id())(a@, b@)
        { inbox::is_older_by_id(b, a) }, Ghost(role_inbox::newer_by_id()));
    let ghost l = health_list(s@.inbox);
    let mut out: Vec<(String, String)> = Vec::new();
    if list.len() == 0 {
        assert(pairs(out@) =~= seq![]);
        return out;
    }
    let mut i: usize = 1;
    assert(l.len() == list.len());
    while i < list.len()
        invariant
            1 <= i <= list.len(),
            table::views(list@) == l,
            l.len() == list.len(),
            out.len() == i - 1,
            forall|j: int| 0 <= j < out.len() ==> #[trigger] pairs(out@)[j] == (l[j + 1].id, l[0].id),
        decreases list.len() - i,
    {
        assert(l[i as int] == list@[i as int]@ && l[0] == list@[0]@);
        let ghost before = pairs(out@);
        out.push((list[i].id.clone(), list[0].id.clone()));
        assert(pairs(out@) =~= before.push((l[i as int].id, l[0].id)));
        i += 1;
    }
    assert(pairs(out@) =~= health_steps(s@.inbox));
    out
}

fn resolved_key_of(opened: &str) -> (r: String)
    ensures
        r@ == resolved_key(opened@),
{
    let n: usize = opened.unicode_len();
    if n >= 6 {
        text::joined(opened.substring_char(0, n - 6), "resolved")
    } else {
        "resolved".to_owned()
    }
}

fn flap_pairs(s: &Store) -> (r: Vec<(String, String)>)
    ensures
        pairs(r@) == flap_steps(s@.inbox, s@.inbox.len()),
{
    let ghost all = s@.inbox;
    let mut out: Vec<(String, String)> = Vec::new();
    let mut i: usize = 0;
    assert(pairs(out@) =~= flap_steps(all, 0));
    while i < s.inbox.len()
        invariant
            i <= s.inbox.len(),
            all == s@.inbox,
            pairs(out@) == flap_steps(all, i as nat),
        decreases s.inbox.len() - i,
    {
        let o = &s.inbox[i];
        assert(all[i as int] == o@);
        let ghost base = pairs(out@);
        let mut j: usize = 0;
        if text::same(o.kind.as_str(), "incident_opened") && text::same(o.state.as_str(), "pending") {
            let key = resolved_key_of(o.event_key.as_str());
            assert(base + flap_steps_of(all, o@, 0) =~= base);
            while j < s.inbox.len()
                invariant
                    j <= s.inbox.len(),
                    all == s@.inbox,
                    pending_opening(o@),
                    key@ == resolved_key(o@.event_key),
                    pairs(out@) == base + flap_steps_of(all, o@, j as nat),
                decreases s.inbox.len() - j,
            {
                let r = &s.inbox[j];
                assert(all[j as int] == r@);
                if text::same(r.state.as_str(), "pending") && text::same(r.event_key.as_str(), key.as_str()) {
                    let ghost was = pairs(out@);
                    out.push((o.id.clone(), r.id.clone()));
                    out.push((r.id.clone(), r.id.clone()));
                    assert(pairs(out@) =~= was.push((o@.id, r@.id)).push((r@.id, r@.id)));
                    assert(pairs(out@) =~= base + flap_steps_of(all, o@, (j + 1) as nat));
                }
                j += 1;
            }
        } else {
            assert(flap_steps_of(all, o@, all.len()) =~= seq![]);
            assert(base + flap_steps_of(all, o@, all.len()) =~= base);
        }
        i += 1;
    }
    out
}

/// What folding patrol's events answers and leaves in the store.
pub open spec fn folding(s: StoreView, now: Seq<char>, n: usize, after: StoreView) -> bool {
    let all = coalesced(s.inbox, now);
    &&& n == all.1
    &&& after == (StoreView {
        inbox: all.0,
        roles: if n == 0 {
            s.roles
        } else {
            table::changed(
                roles::with_role(s.roles, Role::Patrol, now),
                roles::of_role(Role::Patrol),
                roles::folded(n as nat, now),
            )
        },
        ..s
    })
}

/// Fold patrol's pending events; how many were folded.
pub fn coalesce_patrol(s: &mut Store, now: &str) -> (n: usize)
    ensures
        folding(old(s)@, now@, n, final(s)@),
{
    proof {
        folding_leaves_one_of_each(s@.inbox, now@, now@);
        assert(s@.inbox.len() == s.inbox.len());
    }
    let health = health_pairs(s);
    let folded: usize = fold_steps(s, now, &health, 0);
    let flaps = flap_pairs(s);
    let n: usize = fold_steps(s, now, &flaps, folded);
    if n > 0 {
        roles::add_merged(s, now, Role::Patrol, n);
    }
    n
}

// ---------------------------------------------------------------- laws

proof fn folding_closes(inbox: Seq<InboxEventView>, steps: Seq<(Seq<char>, Seq<char>)>, now: Seq<char>)
    ensures
        fold_each(inbox, steps, now).0.len() == inbox.len(),
        forall|i: int|
            0 <= i < inbox.len() && (#[trigger] fold_each(inbox, steps, now).0[i]).state == "pending"@ ==> {
                &&& fold_each(inbox, steps, now).0[i] == inbox[i]
                &&& forall|k: int| 0 <= k < steps.len() ==> (#[trigger] steps[k]).0 != inbox[i].id
            },
    decreases steps.len(),
{
    reveal_strlit("handled");
    reveal_strlit("pending");
    assert("handled"@[0] == 'h' && "pending"@[0] == 'p');
    if steps.len() > 0 {
        folding_closes(inbox, steps.drop_last(), now);
        let before = fold_each(inbox, steps.drop_last(), now).0;
        let hit = inbox::id_in_state(steps.last().0, "pending"@);
        let after = fold_each(inbox, steps, now).0;
        assert forall|i: int| 0 <= i < inbox.len() && (#[trigger] after[i]).state == "pending"@ implies {
            &&& after[i] == inbox[i]
            &&& forall|k: int| 0 <= k < steps.len() ==> (#[trigger] steps[k]).0 != inbox[i].id
        } by {
            assert(after[i] == if hit(before[i]) {
                (folded_into(steps.last().1, now))(before[i])
            } else {
                before[i]
            });
            assert(before[i].state == "pending"@);
            assert(before[i] == inbox[i]);
            assert forall|k: int| 0 <= k < steps.len() implies (#[trigger] steps[k]).0 != inbox[i].id by {
                if k < steps.len() - 1 {
                    assert(steps.drop_last()[k] == steps[k]);
                }
            }
        }
    }
}

proof fn listed_health(inbox: Seq<InboxEventView>, i: int)
    requires
        0 <= i < inbox.len(),
        (pending_health())(inbox[i]),
    ensures
        exists|k: int| 0 <= k < health_list(inbox).len() && #[trigger] health_list(inbox)[k] == inbox[i],
{
    broadcast use vstd::seq_lib::group_to_multiset_ensures;

    let sel = inbox.filter(pending_health());
    inbox.lemma_filter_contains(pending_health(), i);
    table::ordering_keeps_the_rows(sel, role_inbox::newer_by_id());
    assert(sel.contains(inbox[i]));
    assert(sel.to_multiset().count(inbox[i]) > 0);
    assert(health_list(inbox).to_multiset().count(inbox[i]) > 0);
    assert(health_list(inbox).contains(inbox[i]));
}

/// After folding, a health change that is still pending is the latest one.
pub proof fn only_the_latest_health_change_is_left(inbox: Seq<InboxEventView>, now: Seq<char>, i: int)
    requires
        0 <= i < inbox.len(),
        (pending_health())(coalesced(inbox, now).0[i]),
    ensures
        health_list(inbox).len() > 0,
        coalesced(inbox, now).0[i] == health_list(inbox)[0],
{
    let a = fold_each(inbox, health_steps(inbox), now).0;
    folding_closes(inbox, health_steps(inbox), now);
    folding_closes(a, flap_steps(a, a.len()), now);
    let c = coalesced(inbox, now).0;
    assert(c[i].state == "pending"@);
    assert(c[i] == a[i]);
    assert(a[i] == inbox[i]);
    listed_health(inbox, i);
    let list = health_list(inbox);
    let k = choose|k: int| 0 <= k < list.len() && #[trigger] list[k] == inbox[i];
    if k > 0 {
        let steps = health_steps(inbox);
        assert(steps[k - 1] == (list[k - 1 + 1].id, list[0].id));
        assert(steps[k - 1].0 == inbox[i].id);
    }
}

proof fn flap_is_a_step(inbox: Seq<InboxEventView>, o: InboxEventView, n: nat, j: int)
    requires
        0 <= j < n <= inbox.len(),
        pending_opening(o),
        (resolves(o))(inbox[j]),
    ensures
        exists|k: int| 0 <= k < flap_steps_of(inbox, o, n).len() && (#[trigger] flap_steps_of(inbox, o, n)[k]).0 == o.id,
        exists|k: int|
            0 <= k < flap_steps_of(inbox, o, n).len() && (#[trigger] flap_steps_of(inbox, o, n)[k]).0 == inbox[j].id,
    decreases n,
{
    let steps = flap_steps_of(inbox, o, n);
    let before = flap_steps_of(inbox, o, (n - 1) as nat);
    if j == n - 1 {
        assert(steps[before.len() as int].0 == o.id);
        assert(steps[before.len() as int + 1].0 == inbox[j].id);
    } else {
        flap_is_a_step(inbox, o, (n - 1) as nat, j);
        let a = choose|k: int| 0 <= k < before.len() && (#[trigger] before[k]).0 == o.id;
        let b = choose|k: int| 0 <= k < before.len() && (#[trigger] before[k]).0 == inbox[j].id;
        assert(steps[a] == before[a] && steps[b] == before[b]);
    }
}

proof fn flap_steps_hold(inbox: Seq<InboxEventView>, n: nat, i: int)
    requires
        0 <= i < n <= inbox.len(),
    ensures
        forall|k: int|
            0 <= k < flap_steps_of(inbox, inbox[i], inbox.len()).len() ==> flap_steps(inbox, n).contains(
                #[trigger] flap_steps_of(inbox, inbox[i], inbox.len())[k],
            ),
    decreases n,
{
    let all = flap_steps(inbox, n);
    let before = flap_steps(inbox, (n - 1) as nat);
    let part = flap_steps_of(inbox, inbox[i], inbox.len());
    if i == n - 1 {
        assert forall|k: int| 0 <= k < part.len() implies all.contains(#[trigger] part[k]) by {
            assert(all[before.len() + k] == part[k]);
        }
    } else {
        flap_steps_hold(inbox, (n - 1) as nat, i);
        assert forall|k: int| 0 <= k < part.len() implies all.contains(#[trigger] part[k]) by {
            assert(before.contains(part[k]));
            let m = choose|m: int| 0 <= m < before.len() && before[m] == part[k];
            assert(all[m] == part[k]);
        }
    }
}

proof fn folding_leaves(inbox: Seq<InboxEventView>, steps: Seq<(Seq<char>, Seq<char>)>, now: Seq<char>, i: int)
    requires
        0 <= i < inbox.len(),
        forall|k: int| 0 <= k < steps.len() ==> (#[trigger] steps[k]).0 != inbox[i].id,
    ensures
        fold_each(inbox, steps, now).0.len() == inbox.len(),
        fold_each(inbox, steps, now).0[i] == inbox[i],
    decreases steps.len(),
{
    if steps.len() > 0 {
        assert forall|k: int| 0 <= k < steps.drop_last().len() implies (#[trigger] steps.drop_last()[k]).0
            != inbox[i].id by {
            assert(steps.drop_last()[k] == steps[k]);
        }
        folding_leaves(inbox, steps.drop_last(), now, i);
        assert(steps[steps.len() - 1].0 != inbox[i].id);
    }
}

/// An incident that opened and closed before anybody was told wakes nobody: after folding, neither
/// report is pending. A row that is itself one of the older health changes is folded as such, before the
/// incidents are looked at.
pub proof fn a_flap_wakes_nobody(inbox: Seq<InboxEventView>, now: Seq<char>, i: int, j: int)
    requires
        0 <= i < inbox.len(),
        0 <= j < inbox.len(),
        pending_opening(inbox[i]),
        (resolves(inbox[i]))(inbox[j]),
        forall|k: int|
            0 <= k < health_steps(inbox).len() ==> (#[trigger] health_steps(inbox)[k]).0 != inbox[i].id
                && health_steps(inbox)[k].0 != inbox[j].id,
    ensures
        coalesced(inbox, now).0[i].state != "pending"@,
        coalesced(inbox, now).0[j].state != "pending"@,
{
    let a = fold_each(inbox, health_steps(inbox), now).0;
    let steps = flap_steps(a, a.len());
    folding_leaves(inbox, health_steps(inbox), now, i);
    folding_leaves(inbox, health_steps(inbox), now, j);
    folding_closes(a, steps, now);
    flap_is_a_step(a, a[i], a.len(), j);
    flap_steps_hold(a, a.len(), i);
    let part = flap_steps_of(a, a[i], a.len());
    let x = choose|k: int| 0 <= k < part.len() && (#[trigger] part[k]).0 == a[i].id;
    let y = choose|k: int| 0 <= k < part.len() && (#[trigger] part[k]).0 == a[j].id;
    assert(steps.contains(part[x]) && steps.contains(part[y]));
    let m = choose|m: int| 0 <= m < steps.len() && steps[m] == part[x];
    let n = choose|m: int| 0 <= m < steps.len() && steps[m] == part[y];
    assert(steps[m].0 == a[i].id && steps[n].0 == a[j].id);
}

proof fn twice_is_counted(rows: Seq<InboxEventView>, p: spec_fn(InboxEventView) -> bool, i: int, j: int)
    requires
        0 <= i < j < rows.len(),
        p(rows[i]),
        rows[i] == rows[j],
    ensures
        rows.filter(p).to_multiset().count(rows[i]) >= 2,
    decreases rows.len(),
{
    broadcast use vstd::seq_lib::group_to_multiset_ensures;

    reveal(Seq::filter);
    let head = rows.drop_last();
    if j == rows.len() - 1 {
        head.lemma_filter_contains(p, i);
        assert(head.filter(p).contains(rows[i]));
        assert(head.filter(p).to_multiset().count(rows[i]) > 0);
    } else {
        twice_is_counted(head, p, i, j);
    }
}

proof fn one_health_change_is_left(inbox: Seq<InboxEventView>, now: Seq<char>, i: int, j: int)
    requires
        0 <= i < j < inbox.len(),
        (pending_health())(coalesced(inbox, now).0[i]),
    ensures
        !(pending_health())(coalesced(inbox, now).0[j]),
{
    broadcast use vstd::seq_lib::group_to_multiset_ensures;

    if (pending_health())(coalesced(inbox, now).0[j]) {
        let a = fold_each(inbox, health_steps(inbox), now).0;
        let steps = health_steps(inbox);
        let list = health_list(inbox);
        only_the_latest_health_change_is_left(inbox, now, i);
        only_the_latest_health_change_is_left(inbox, now, j);
        folding_closes(inbox, steps, now);
        folding_closes(a, flap_steps(a, a.len()), now);
        let c = coalesced(inbox, now).0;
        assert(c[i] == a[i] && a[i] == inbox[i]);
        assert(c[j] == a[j] && a[j] == inbox[j]);
        twice_is_counted(inbox, pending_health(), i, j);
        table::ordering_keeps_the_rows(inbox.filter(pending_health()), role_inbox::newer_by_id());
        assert(list.remove(0).to_multiset().count(list[0]) > 0);
        assert(list.remove(0).contains(list[0]));
        let m = choose|m: int| 0 <= m < list.remove(0).len() && list.remove(0)[m] == list[0];
        assert(steps[m] == (list[m + 1].id, list[0].id));
        assert(steps[m].0 == inbox[i].id);
    }
}

proof fn at_most_one(rows: Seq<InboxEventView>, p: spec_fn(InboxEventView) -> bool)
    requires
        forall|i: int, j: int| 0 <= i < j < rows.len() && p(#[trigger] rows[i]) ==> !p(#[trigger] rows[j]),
    ensures
        rows.filter(p).len() <= 1,
    decreases rows.len(),
{
    reveal(Seq::filter);
    if rows.len() > 0 {
        let head = rows.drop_last();
        assert forall|i: int, j: int| 0 <= i < j < head.len() && p(#[trigger] head[i]) implies !p(
            #[trigger] head[j],
        ) by {
            assert(p(rows[i]));
            assert(!p(rows[j]));
        }
        at_most_one(head, p);
        if p(rows.last()) {
            assert forall|i: int| 0 <= i < head.len() implies !p(#[trigger] head[i]) by {
                if p(head[i]) {
                    assert(!p(rows[rows.len() - 1]));
                }
            }
            table::any_is_counted(head, p);
        }
    }
}

proof fn no_flap_steps(inbox: Seq<InboxEventView>, o: InboxEventView, n: nat)
    requires
        n <= inbox.len(),
        pending_opening(o) ==> forall|j: int| 0 <= j < inbox.len() ==> !(resolves(o))(#[trigger] inbox[j]),
    ensures
        flap_steps_of(inbox, o, n).len() == 0,
    decreases n,
{
    if n > 0 && pending_opening(o) {
        no_flap_steps(inbox, o, (n - 1) as nat);
        assert(!(resolves(o))(inbox[n - 1]));
    }
}

proof fn no_flaps(inbox: Seq<InboxEventView>, n: nat)
    requires
        n <= inbox.len(),
        forall|i: int, j: int|
            0 <= i < inbox.len() && 0 <= j < inbox.len() && pending_opening(#[trigger] inbox[i]) ==> !(resolves(inbox[i]))(
                #[trigger] inbox[j],
            ),
    ensures
        flap_steps(inbox, n).len() == 0,
    decreases n,
{
    if n > 0 {
        no_flaps(inbox, (n - 1) as nat);
        no_flap_steps(inbox, inbox[n - 1], inbox.len());
    }
}

proof fn no_flap_is_left(inbox: Seq<InboxEventView>, now: Seq<char>, i: int, j: int)
    requires
        0 <= i < inbox.len(),
        0 <= j < inbox.len(),
        pending_opening(coalesced(inbox, now).0[i]),
    ensures
        !(resolves(coalesced(inbox, now).0[i]))(coalesced(inbox, now).0[j]),
{
    if (resolves(coalesced(inbox, now).0[i]))(coalesced(inbox, now).0[j]) {
        let a = fold_each(inbox, health_steps(inbox), now).0;
        let steps = flap_steps(a, a.len());
        let c = coalesced(inbox, now).0;
        folding_closes(inbox, health_steps(inbox), now);
        folding_closes(a, steps, now);
        assert(c[i].state == "pending"@ && c[j].state == "pending"@);
        assert(c[i] == a[i] && c[j] == a[j]);
        flap_is_a_step(a, a[i], a.len(), j);
        flap_steps_hold(a, a.len(), i);
        let part = flap_steps_of(a, a[i], a.len());
        let x = choose|k: int| 0 <= k < part.len() && (#[trigger] part[k]).0 == a[i].id;
        assert(steps.contains(part[x]));
        let m = choose|m: int| 0 <= m < steps.len() && steps[m] == part[x];
        assert(steps[m].0 == a[i].id);
    }
}

proof fn changing_is_counted(
    rows: Seq<InboxEventView>,
    of: spec_fn(InboxEventView) -> bool,
    hit: spec_fn(InboxEventView) -> bool,
    to: spec_fn(InboxEventView) -> InboxEventView,
)
    requires
        forall|e: InboxEventView| #[trigger] hit(e) ==> of(e) && !of(to(e)),
    ensures
        table::hits(rows, of) == table::hits(table::changed(rows, hit, to), of) + table::hits(rows, hit),
    decreases rows.len(),
{
    reveal(Seq::filter);
    if rows.len() > 0 {
        changing_is_counted(rows.drop_last(), of, hit, to);
        assert(table::changed(rows, hit, to).drop_last() =~= table::changed(rows.drop_last(), hit, to));
        assert(table::changed(rows, hit, to).last() == if hit(rows.last()) {
            to(rows.last())
        } else {
            rows.last()
        });
    }
}

/// The row is as it was, or it was pending and was folded into another.
pub open spec fn kept_or_folded(was: InboxEventView, is: InboxEventView, now: Seq<char>) -> bool {
    is == was || (was.state == "pending"@ && exists|target: Seq<char>| is == #[trigger] folded_into(target, now)(was))
}

proof fn folding_counts(inbox: Seq<InboxEventView>, steps: Seq<(Seq<char>, Seq<char>)>, now: Seq<char>)
    ensures
        ({
            let after = fold_each(inbox, steps, now);
            &&& after.0.len() == inbox.len()
            &&& forall|i: int| 0 <= i < inbox.len() ==> kept_or_folded(inbox[i], #[trigger] after.0[i], now)
            &&& table::hits(inbox, inbox::in_state("pending"@)) == table::hits(after.0, inbox::in_state("pending"@))
                + after.1
        }),
    decreases steps.len(),
{
    reveal_strlit("handled");
    reveal_strlit("pending");
    assert("handled"@[0] == 'h' && "pending"@[0] == 'p');
    if steps.len() > 0 {
        let before = fold_each(inbox, steps.drop_last(), now).0;
        let after = fold_each(inbox, steps, now).0;
        let hit = inbox::id_in_state(steps.last().0, "pending"@);
        let to = folded_into(steps.last().1, now);
        folding_counts(inbox, steps.drop_last(), now);
        changing_is_counted(before, inbox::in_state("pending"@), hit, to);
        assert forall|i: int| 0 <= i < inbox.len() implies kept_or_folded(inbox[i], #[trigger] after[i], now) by {
            assert(kept_or_folded(inbox[i], before[i], now));
            if hit(before[i]) {
                assert(before[i] == inbox[i]);
                assert(after[i] == folded_into(steps.last().1, now)(inbox[i]));
            }
        }
    }
}

proof fn newer_is_a_ranking()
    ensures
        table::is_ranking(role_inbox::newer_by_id()),
{
    let before = role_inbox::newer_by_id();
    assert forall|a: InboxEventView, b: InboxEventView| #[trigger] before(a, b) implies !before(b, a) by {
        text::text_order_is_strict(a.created_at, b.created_at);
        text::text_order_is_strict(b.created_at, a.created_at);
        text::text_order_is_strict(a.id, b.id);
        text::text_order_is_strict(b.id, a.id);
    }
    assert forall|a: InboxEventView, b: InboxEventView, c: InboxEventView|
        !(#[trigger] before(a, b)) && !(#[trigger] before(b, c)) implies !before(a, c) by {
        text::text_order_is_total(a.created_at, b.created_at);
        text::text_order_is_total(b.created_at, c.created_at);
        text::text_order_is_total(a.id, b.id);
        text::text_order_is_total(b.id, c.id);
        text::text_order_is_strict(a.created_at, c.created_at);
        text::text_order_is_strict(c.created_at, a.created_at);
        text::text_order_is_strict(a.created_at, a.created_at);
        text::text_order_is_strict(a.id, c.id);
        text::text_order_is_strict(c.id, a.id);
        if text::text_before(a.created_at, b.created_at) && text::text_before(b.created_at, c.created_at) {
            text::text_order_is_transitive(a.created_at, b.created_at, c.created_at);
        }
        if text::text_before(a.id, b.id) && text::text_before(b.id, c.id) {
            text::text_order_is_transitive(a.id, b.id, c.id);
        }
    }
}

/// Folding, whatever the inbox holds. A row that is folded was pending and is now handled by the daemon,
/// with a pointer to another row; no other row changes; as many rows are folded as are said to be. Of the
/// health changes at most one is still pending, and none that was pending is newer. No incident has both
/// its opening and its end pending. Folding again folds nothing.
pub proof fn folding_leaves_one_of_each(inbox: Seq<InboxEventView>, now: Seq<char>, later: Seq<char>)
    ensures
        ({
            let (c, n) = coalesced(inbox, now);
            &&& c.len() == inbox.len()
            &&& forall|i: int| 0 <= i < c.len() ==> kept_or_folded(inbox[i], #[trigger] c[i], now)
            &&& n <= inbox.len()
            &&& table::hits(inbox, inbox::in_state("pending"@)) == table::hits(c, inbox::in_state("pending"@)) + n
            &&& table::hits(c, pending_health()) <= 1
            &&& forall|i: int, j: int|
                0 <= i < c.len() && 0 <= j < c.len() && (pending_health())(#[trigger] c[i]) && (pending_health())(
                    #[trigger] inbox[j],
                ) ==> !(role_inbox::newer_by_id())(inbox[j], c[i])
            &&& forall|i: int, j: int|
                0 <= i < c.len() && 0 <= j < c.len() && pending_opening(#[trigger] c[i]) ==> !(resolves(c[i]))(
                    #[trigger] c[j],
                )
            &&& coalesced(c, later) == (c, 0nat)
        }),
{
    let a = fold_each(inbox, health_steps(inbox), now).0;
    let c = coalesced(inbox, now).0;
    let pending = inbox::in_state("pending"@);
    folding_counts(inbox, health_steps(inbox), now);
    folding_counts(a, flap_steps(a, a.len()), now);
    assert forall|i: int| 0 <= i < c.len() implies kept_or_folded(inbox[i], #[trigger] c[i], now) by {
        assert(kept_or_folded(inbox[i], a[i], now));
        assert(kept_or_folded(a[i], c[i], now));
        reveal_strlit("handled");
        reveal_strlit("pending");
        assert("handled"@[0] == 'h' && "pending"@[0] == 'p');
    }
    inbox.lemma_filter_len(pending);
    assert forall|i: int, j: int| 0 <= i < j < c.len() && (pending_health())(#[trigger] c[i]) implies !(pending_health())(
        #[trigger] c[j],
    ) by {
        one_health_change_is_left(inbox, now, i, j);
    }
    at_most_one(c, pending_health());
    assert forall|i: int, j: int|
        0 <= i < c.len() && 0 <= j < c.len() && (pending_health())(#[trigger] c[i]) && (pending_health())(
            #[trigger] inbox[j],
        ) implies !(role_inbox::newer_by_id())(inbox[j], c[i]) by {
        only_the_latest_health_change_is_left(inbox, now, i);
        listed_health(inbox, j);
        newer_is_a_ranking();
        table::ordering_orders(inbox.filter(pending_health()), role_inbox::newer_by_id());
        let list = health_list(inbox);
        let k = choose|k: int| 0 <= k < list.len() && #[trigger] list[k] == inbox[j];
        if k > 0 {
            assert(!(role_inbox::newer_by_id())(list[k], list[0]));
        } else {
            text::text_order_is_strict(list[0].created_at, list[0].created_at);
            text::text_order_is_strict(list[0].id, list[0].id);
        }
    }
    assert forall|i: int, j: int|
        0 <= i < c.len() && 0 <= j < c.len() && pending_opening(#[trigger] c[i]) implies !(resolves(c[i]))(
        #[trigger] c[j],
    ) by {
        no_flap_is_left(inbox, now, i, j);
    }
    table::ordering_keeps_the_rows(c.filter(pending_health()), role_inbox::newer_by_id());
    assert(health_steps(c) =~= seq![]);
    no_flaps(c, c.len());
    assert(flap_steps(c, c.len()) =~= seq![]);
}

/// What is folded is closed by the daemon, now, and names the event it went into; everything else of it
/// stays on record. What was not pending is never touched, and as many are counted for patrol as went.
pub proof fn what_is_folded_says_where_it_went(s: StoreView, now: Seq<char>, n: usize, after: StoreView, i: int, k: int)
    requires
        folding(s, now, n, after),
        0 <= i < s.inbox.len(),
    ensures
        after == (StoreView { inbox: after.inbox, roles: after.roles, ..s }),
        after.inbox.len() == s.inbox.len(),
        s.inbox[i].state != "pending"@ ==> after.inbox[i] == s.inbox[i],
        after.inbox[i] != s.inbox[i] ==> {
            &&& after.inbox[i].merged_into is Some
            &&& after.inbox[i] == (InboxEventView {
                state: "handled"@,
                acked_by: Some("daemon"@),
                merged_into: after.inbox[i].merged_into,
                updated_at: now,
                ..s.inbox[i]
            })
        },
        s.inbox.filter(|e: InboxEventView| e.state == "pending"@).len() == after.inbox.filter(
            |e: InboxEventView| e.state == "pending"@,
        ).len() + n,
        n == 0 ==> after.roles == s.roles,
        n > 0 && 0 <= k < s.roles.len() && s.roles[k].role == "patrol"@ ==> after.roles[k].merged == if s.roles[k].merged + n
            < i64::MAX {
            (s.roles[k].merged + n) as i64
        } else {
            i64::MAX
        },
{
    folding_leaves_one_of_each(s.inbox, now, now);
    assert(kept_or_folded(s.inbox[i], after.inbox[i], now));
    assert(inbox::in_state("pending"@) =~= |e: InboxEventView| e.state == "pending"@);
    if 0 <= k < s.roles.len() && s.roles[k].role == "patrol"@ {
        assert((roles::of_role(Role::Patrol))(s.roles[k]));
    }
}

/// Afterwards at most one health change is pending, and none that was pending is later than it; and of
/// no incident are both the opening and the end pending.
pub proof fn nobody_is_told_what_is_over(s: StoreView, now: Seq<char>, n: usize, after: StoreView, i: int, j: int)
    requires
        folding(s, now, n, after),
        0 <= i < s.inbox.len(),
        0 <= j < s.inbox.len(),
    ensures
        i != j && after.inbox[i].state == "pending"@ && after.inbox[i].kind == "health_changed"@ && after.inbox[j].state
            == "pending"@ ==> after.inbox[j].kind != "health_changed"@,
        after.inbox[i].state == "pending"@ && after.inbox[i].kind == "health_changed"@ && s.inbox[j].state == "pending"@
            && s.inbox[j].kind == "health_changed"@ ==> !text::text_before(
            after.inbox[i].created_at,
            s.inbox[j].created_at,
        ),
        after.inbox[i].state == "pending"@ && after.inbox[i].kind == "incident_opened"@ && after.inbox[j].state == "pending"@
            ==> after.inbox[j].event_key != resolved_key(after.inbox[i].event_key),
{
    folding_leaves_one_of_each(s.inbox, now, now);
    if i < j {
        if (pending_health())(after.inbox[i]) && (pending_health())(after.inbox[j]) {
            one_health_change_is_left(s.inbox, now, i, j);
        }
    } else if j < i {
        if (pending_health())(after.inbox[i]) && (pending_health())(after.inbox[j]) {
            one_health_change_is_left(s.inbox, now, j, i);
        }
    }
    if (pending_health())(after.inbox[i]) && (pending_health())(s.inbox[j]) {
        assert(!(role_inbox::newer_by_id())(s.inbox[j], after.inbox[i]));
    }
    if pending_opening(after.inbox[i]) {
        assert(!(resolves(after.inbox[i]))(after.inbox[j]));
    }
}

/// The key of an incident's end is that of its opening with its last word exchanged.
pub proof fn an_incident_ends_under_its_own_key(stem: Seq<char>)
    ensures
        resolved_key(stem + "opened"@) == stem + "resolved"@,
{
    reveal_strlit("opened");
    let key = stem + "opened"@;
    assert("opened"@.len() == 6);
    assert(key.take(key.len() - 6) =~= stem);
}

/// The earlier health changes go into the latest one, and an incident that opened and ended goes into its
/// end, the end itself too.
pub proof fn events_go_into_what_is_left(inbox: Seq<InboxEventView>, o: InboxEventView, r: int, i: int)
    ensures
        0 <= i < health_steps(inbox).len() ==> health_steps(inbox)[i].1 == health_list(inbox)[0].id && health_steps(inbox)[i].0
            == health_list(inbox)[i + 1].id,
        health_list(inbox).len() > 0 ==> health_steps(inbox).len() == health_list(inbox).len() - 1,
        0 <= r < inbox.len() && o.kind == "incident_opened"@ && o.state == "pending"@ && inbox[r].state == "pending"@
            && inbox[r].event_key == resolved_key(o.event_key) ==> flap_steps_of(inbox, o, (r + 1) as nat) == flap_steps_of(
            inbox,
            o,
            r as nat,
        ) + seq![(o.id, inbox[r].id), (inbox[r].id, inbox[r].id)],
        o.kind != "incident_opened"@ || o.state != "pending"@ ==> flap_steps_of(inbox, o, inbox.len()).len() == 0,
        0 <= r < inbox.len() && (inbox[r].state != "pending"@ || inbox[r].event_key != resolved_key(o.event_key))
            ==> flap_steps_of(inbox, o, (r + 1) as nat) == flap_steps_of(inbox, o, r as nat),
{
    if 0 <= r < inbox.len() && (resolves(o))(inbox[r]) && pending_opening(o) {
        let before = flap_steps_of(inbox, o, r as nat);
        assert(before.push((o.id, inbox[r].id)).push((inbox[r].id, inbox[r].id)) =~= before + seq![
            (o.id, inbox[r].id),
            (inbox[r].id, inbox[r].id),
        ]);
    }
}

} // verus!
