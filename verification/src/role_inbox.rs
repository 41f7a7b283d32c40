//! The inbox seen by role: which role owns an event, what is due for it, and who may close it.
use crate::assignments;
use crate::inbox;
use crate::roles;
use crate::roles::{Role, Route};
use crate::rows::{Assignment, AssignmentView, InboxEvent, InboxEventView};
use crate::store::{Store, StoreView};
use crate::table;
use crate::table::Row;
use crate::text;
use vstd::prelude::*;
use vstd::string::*;

verus! {

// ---------------------------------------------------------------- classifying

/// Events that nobody has been chosen for.
pub open spec fn unclassified() -> spec_fn(InboxEventView) -> bool {
    |e: InboxEventView| e.role is None
}

/// Who is to accept the assignment that an event is about, as far as it is on record.
pub open spec fn review_role_of(e: InboxEventView, rows: Seq<AssignmentView>) -> Option<Seq<char>> {
    match e.assignment_id {
        Some(id) => match table::first(rows, assignments::with_id(id)) {
            Some(a) => a.review_role,
            None => None,
        },
        None => None,
    }
}

/// The route of an event.
pub open spec fn route_of(e: InboxEventView, rows: Seq<AssignmentView>) -> Route {
    roles::routed(e.kind, roles::facts_of(e.payload_json), review_role_of(e, rows))
}

/// An event with its role and its wake flag.
pub open spec fn classified(rows: Seq<AssignmentView>) -> spec_fn(InboxEventView) -> InboxEventView {
    |e: InboxEventView|
        (InboxEventView {
            role: Some(route_of(e, rows).role.name()),
            wake: Some(
                if route_of(e, rows).wake {
                    1
                } else {
                    0
                },
            ),
            ..e
        })
}

fn route_for(e: &InboxEvent, rows: &Vec<Assignment>) -> (r: Route)
    ensures
        r == route_of(e@, table::views(rows@)),
{
    let by: Option<String> = match &e.assignment_id {
        Some(id) => {
            let k = id.as_str();
            match table::find(rows, |a: &Assignment| -> (b: bool)
                ensures b == (assignments::with_id(k@))(a@)
                { assignments::has_id(a, k) }, Ghost(assignments::with_id(k@))) {
                Some(a) => text::copied(&a.review_role),
                None => None,
            }
        },
        None => None,
    };
    roles::route(e.kind.as_str(), e.payload_json.as_str(), text::borrowed(&by))
}

/// What classifying the inbox answers and leaves in the store.
pub open spec fn classifying(s: StoreView, n: nat, after: StoreView) -> bool {
    &&& n == table::hits(s.inbox, unclassified())
    &&& after == (StoreView { inbox: table::changed(s.inbox, unclassified(), classified(s.assignments)), ..s })
}

/// Give every event that has none its role and its wake flag; how many there were.
pub fn classify(s: &mut Store) -> (n: usize)
    ensures
        classifying(old(s)@, n as nat, final(s)@),
{
    let rows = &s.assignments;
    table::change(
        &mut s.inbox,
        |e: &InboxEvent| -> (b: bool)
            ensures b == (unclassified())(e@)
            { e.role.is_none() },
        |e: &InboxEvent| -> (x: InboxEvent)
            ensures x@ == (classified(table::views(rows@)))(e@)
            {
                let r = route_for(e, rows);
                InboxEvent {
                    role: Some(r.role.as_str().to_owned()),
                    wake: Some(
                        if r.wake {
                            1
                        } else {
                            0
                        },
                    ),
                    ..e.copied()
                }
            },
        Ghost(unclassified()),
        Ghost(classified(table::views(rows@))),
    )
}

// ---------------------------------------------------------------- ownership

/// Who an event belongs to: the role it was delivered to, or else the one it was routed to.
pub open spec fn owner(e: InboxEventView) -> Option<Seq<char>> {
    if e.claimed_by is Some {
        e.claimed_by
    } else {
        e.role
    }
}

pub(crate) fn owner_of(e: &InboxEvent) -> (r: Option<&str>)
    ensures
        text::arg(r) == owner(e@),
{
    if e.claimed_by.is_some() {
        text::borrowed(&e.claimed_by)
    } else {
        text::borrowed(&e.role)
    }
}

/// The role collects the event: its own, and for patrol everything as long as there is no responder.
pub open spec fn collects(role: Role, responder_configured: bool, e: InboxEventView) -> bool {
    ||| owner(e) == Some(role.name())
    ||| role == Role::Patrol && !responder_configured && owner(e) == Some(Role::Responder.name())
}

fn is_collected(role: Role, responder_configured: bool, e: &InboxEvent) -> (r: bool)
    ensures
        r == collects(role, responder_configured, e@),
{
    let o = owner_of(e);
    text::same_opt(o, Some(role.as_str())) || (role == Role::Patrol && !responder_configured && text::same_opt(
        o,
        Some(Role::Responder.as_str()),
    ))
}

/// Events that can be delivered to a role now. Only what belongs to patrol has a bound on its
/// retries: what a bot is waiting for is never dropped.
pub open spec fn due_now(role: Role, responder_configured: bool, now: Seq<char>, max_attempts: i64) -> spec_fn(
    InboxEventView,
) -> bool {
    |e: InboxEventView|
        e.state == "pending"@ && collects(role, responder_configured, e) && (e.notify_next_at matches Some(t)
            ==> !text::text_before(now, t)) && (owner(e) == Some(Role::Responder.name()) || e.notify_attempts
            < max_attempts)
}

/// The events a role can be told now, oldest first.
pub open spec fn due_list(
    rows: Seq<InboxEventView>,
    role: Role,
    responder_configured: bool,
    now: Seq<char>,
    max_attempts: i64,
) -> Seq<InboxEventView> {
    table::ordered(rows.filter(due_now(role, responder_configured, now, max_attempts)), inbox::older_by_id())
}

/// The events a role can be told now, oldest first.
pub fn due_for(s: &Store, role: Role, responder_configured: bool, now: &str, max_attempts: i64) -> (r: Vec<InboxEvent>)
    ensures
        table::views(r@) == due_list(s@.inbox, role, responder_configured, now@, max_attempts),
{
    let rows = table::select(&s.inbox, |e: &InboxEvent| -> (b: bool)
        ensures b == (due_now(role, responder_configured, now@, max_attempts))(e@)
        {
            text::same(e.state.as_str(), "pending") && is_collected(role, responder_configured, e) && (match &e.notify_next_at {
                Some(t) => !text::precedes(now, t.as_str()),
                None => true,
            }) && (text::same_opt(owner_of(e), Some(Role::Responder.as_str())) || e.notify_attempts < max_attempts)
        }, Ghost(due_now(role, responder_configured, now@, max_attempts)));
    table::arrange(rows, |a: &InboxEvent, b: &InboxEvent| -> (c: bool)
        ensures c == (inbox::older_by_id())(a@, b@)
        { inbox::is_older_by_id(a, b) }, Ghost(inbox::older_by_id()))
}

/// Events of a list: of one role or of both, with the closed ones or without.
pub open spec fn listed(role: Option<Role>, all: bool) -> spec_fn(InboxEventView) -> bool {
    |e: InboxEventView|
        (all || e.state != "handled"@) && (role matches Some(r) ==> owner(e) == Some(r.name()))
}

/// One event was written after another; of two written at the same time the one with the larger id.
pub open spec fn newer_by_id() -> spec_fn(InboxEventView, InboxEventView) -> bool {
    |a: InboxEventView, b: InboxEventView| (inbox::older_by_id())(b, a)
}

/// The order of a list: the work view oldest first, the audit view newest first.
pub open spec fn list_order(all: bool) -> spec_fn(InboxEventView, InboxEventView) -> bool {
    if all {
        newer_by_id()
    } else {
        inbox::older_by_id()
    }
}

/// The inbox as it is listed for a role, up to a limit.
pub open spec fn role_list(rows: Seq<InboxEventView>, role: Option<Role>, all: bool, limit: int) -> Seq<InboxEventView> {
    table::limited(table::ordered(rows.filter(listed(role, all)), list_order(all)), limit)
}

/// The inbox as it is listed. The role is chosen before the limit is applied: otherwise a backlog of
/// the other role would hide one's own work.
pub fn list_for(s: &Store, role: Option<Role>, all: bool, limit: i64) -> (r: Vec<InboxEvent>)
    ensures
        table::views(r@) == role_list(s@.inbox, role, all, limit as int),
{
    let rows = table::select(&s.inbox, |e: &InboxEvent| -> (b: bool)
        ensures b == (listed(role, all))(e@)
        {
            (all || !text::same(e.state.as_str(), "handled")) && (match role {
                Some(r) => text::same_opt(owner_of(e), Some(r.as_str())),
                None => true,
            })
        }, Ghost(listed(role, all)));
    let sorted = table::arrange(rows, |a: &InboxEvent, b: &InboxEvent| -> (c: bool)
        ensures c == (list_order(all))(a@, b@)
        {
            if all {
                inbox::is_older_by_id(b, a)
            } else {
                inbox::is_older_by_id(a, b)
            }
        }, Ghost(list_order(all)));
    table::limit(sorted, limit)
}

// ---------------------------------------------------------------- delivering

/// The event with this id, while this role may have it: not closed, and not delivered to the other.
pub open spec fn claimable(id: Seq<char>, role: Role) -> spec_fn(InboxEventView) -> bool {
    |e: InboxEventView|
        e.id == id && e.state != "handled"@ && (e.claimed_by is None || e.claimed_by == Some(role.name()))
}

/// An event that was delivered to a role.
pub open spec fn delivered_to(role: Role, turn_id: Seq<char>, delivery: Seq<char>, now: Seq<char>) -> spec_fn(
    InboxEventView,
) -> InboxEventView {
    |e: InboxEventView|
        (InboxEventView { claimed_by: Some(role.name()), ..(inbox::prompted(turn_id, delivery, now))(e) })
}

/// The inbox after events were delivered to a role, one id after the other, and how many were.
pub open spec fn delivered_each(
    inbox: Seq<InboxEventView>,
    ids: Seq<Seq<char>>,
    role: Role,
    turn_id: Seq<char>,
    delivery: Seq<char>,
    now: Seq<char>,
) -> (Seq<InboxEventView>, nat)
    decreases ids.len(),
{
    if ids.len() == 0 {
        (inbox, 0)
    } else {
        let before = delivered_each(inbox, ids.drop_last(), role, turn_id, delivery, now);
        let hit = claimable(ids.last(), role);
        (
            table::changed(before.0, hit, delivered_to(role, turn_id, delivery, now)),
            before.1 + table::hits(before.0, hit),
        )
    }
}

/// What delivering events to a role answers and leaves in the store.
pub open spec fn delivering(
    s: StoreView,
    ids: Seq<Seq<char>>,
    role: Role,
    turn_id: Seq<char>,
    delivery: Seq<char>,
    now: Seq<char>,
    n: usize,
    after: StoreView,
) -> bool {
    let all = delivered_each(s.inbox, ids, role, turn_id, delivery, now);
    &&& after == (StoreView { inbox: all.0, ..s })
    &&& n == if all.1 <= usize::MAX {
        all.1 as int
    } else {
        usize::MAX as int
    }
}

/// Mark events as delivered, and to whom. An event that the other role got is left alone: one thing
/// is handled by one role. How many were marked; the count stops at the largest that can be held.
pub fn mark_delivered(s: &mut Store, now: &str, ids: &[String], role: Role, turn_id: &str, delivery: &str) -> (n: usize)
    ensures
        delivering(old(s)@, text::texts(ids@), role, turn_id@, delivery@, now@, n, final(s)@),
{
    let ghost was = s@.inbox;
    let mut i: usize = 0;
    let mut n: usize = 0;
    assert(text::texts(ids@).take(0) =~= Seq::<Seq<char>>::empty());
    while i < ids.len()
        invariant
            i <= ids.len(),
            was == old(s)@.inbox,
            ({
                let upto = delivered_each(was, text::texts(ids@).take(i as int), role, turn_id@, delivery@, now@);
                &&& s@ == (StoreView { inbox: upto.0, ..old(s)@ })
                &&& n == if upto.1 <= usize::MAX {
                    upto.1 as int
                } else {
                    usize::MAX as int
                }
            }),
        decreases ids.len() - i,
    {
        let id = ids[i].as_str();
        let ghost upto = text::texts(ids@).take(i as int + 1);
        assert(upto.drop_last() =~= text::texts(ids@).take(i as int));
        assert(upto.last() == id@);
        let k = table::change(
            &mut s.inbox,
            |e: &InboxEvent| -> (b: bool)
                ensures b == (claimable(id@, role))(e@)
                {
                    text::same(e.id.as_str(), id) && !text::same(e.state.as_str(), "handled") && (e.claimed_by.is_none()
                        || text::is_text(&e.claimed_by, role.as_str()))
                },
            |e: &InboxEvent| -> (x: InboxEvent)
                ensures x@ == (delivered_to(role, turn_id@, delivery@, now@))(e@)
                {
                    InboxEvent {
                        state: "delivered".to_owned(),
                        claimed_by: Some(role.as_str().to_owned()),
                        notify_turn_id: Some(turn_id.to_owned()),
                        notify_delivery: Some(delivery.to_owned()),
                        delivered_at: Some(now.to_owned()),
                        notify_attempts: table::bump(e.notify_attempts),
                        notify_next_at: None,
                        notify_error: None,
                        updated_at: now.to_owned(),
                        ..e.copied()
                    }
                },
            Ghost(claimable(id@, role)),
            Ghost(delivered_to(role, turn_id@, delivery@, now@)),
        );
        n = n.saturating_add(k);
        i += 1;
    }
    assert(text::texts(ids@).take(i as int) =~= text::texts(ids@));
    n
}

// ---------------------------------------------------------------- closing

#[derive(Debug, PartialEq, Eq)]
pub enum AckOutcome {
    Acked,
    AlreadyHandled,
    NotFound,
    /// The other role got this event; closing it would be closing somebody else's.
    ClaimedByOther(String),
}

/// Who may close an event: the user everything, a role what it collects.
pub open spec fn may_ack(actor: Option<Role>, responder_configured: bool, e: InboxEventView) -> bool {
    match actor {
        None => true,
        Some(r) => collects(r, responder_configured, e),
    }
}

/// The event with this id, while it is open and this actor may close it.
pub open spec fn ackable(id: Seq<char>, actor: Option<Role>, responder_configured: bool) -> spec_fn(InboxEventView) -> bool {
    |e: InboxEventView| e.id == id && e.state != "handled"@ && may_ack(actor, responder_configured, e)
}

/// Who closed an event: a role, or the user.
pub open spec fn closer(actor: Option<Role>) -> Seq<char> {
    match actor {
        Some(r) => r.name(),
        None => "user"@,
    }
}

/// An event that was closed by somebody.
pub open spec fn closed_by(actor: Option<Role>, now: Seq<char>) -> spec_fn(InboxEventView) -> InboxEventView {
    |e: InboxEventView|
        (InboxEventView { state: "handled"@, acked_by: Some(closer(actor)), updated_at: now, ..e })
}

/// What an `AckOutcome` says.
#[verifier::ext_equal]
pub enum AckOutcomeView {
    Acked,
    AlreadyHandled,
    NotFound,
    ClaimedByOther(Seq<char>),
}

impl View for AckOutcome {
    type V = AckOutcomeView;

    open spec fn view(&self) -> AckOutcomeView {
        match self {
            AckOutcome::Acked => AckOutcomeView::Acked,
            AckOutcome::AlreadyHandled => AckOutcomeView::AlreadyHandled,
            AckOutcome::NotFound => AckOutcomeView::NotFound,
            AckOutcome::ClaimedByOther(who) => AckOutcomeView::ClaimedByOther(who@),
        }
    }
}

/// What closing an event answers and leaves in the store.
pub open spec fn acking(
    s: StoreView,
    now: Seq<char>,
    id: Seq<char>,
    actor: Option<Role>,
    responder_configured: bool,
    r: AckOutcomeView,
    after: StoreView,
) -> bool {
    let hit = ackable(id, actor, responder_configured);
    if table::any(s.inbox, hit) {
        &&& r is Acked
        &&& after == (StoreView { inbox: table::changed(s.inbox, hit, closed_by(actor, now)), ..s })
    } else {
        &&& after == s
        &&& match table::first(s.inbox, inbox::with_id(id)) {
            None => r is NotFound,
            Some(e) => if e.state == "handled"@ {
                r is AlreadyHandled
            } else {
                r matches AckOutcomeView::ClaimedByOther(who) && who == match owner(e) {
                    Some(o) => o,
                    None => "patrol"@,
                }
            },
        }
    }
}

/// Close an event. `actor` is a verified role; none is the user, who may close everything.
pub fn ack(s: &mut Store, now: &str, id: &str, actor: Option<Role>, responder_configured: bool) -> (r: AckOutcome)
    ensures
        acking(old(s)@, now@, id@, actor, responder_configured, r@, final(s)@),
{
    let ghost was = s@.inbox;
    let ghost hit = ackable(id@, actor, responder_configured);
    proof {
        table::first_is_a_hit(was, hit);
    }
    let open = table::find(&s.inbox, |e: &InboxEvent| -> (b: bool)
        ensures b == (ackable(id@, actor, responder_configured))(e@)
        { is_ackable(e, id, actor, responder_configured) }, Ghost(hit)).is_some();
    if open {
        let by: &'static str = match actor {
            Some(r) => r.as_str(),
            None => "user",
        };
        table::change(
            &mut s.inbox,
            |e: &InboxEvent| -> (b: bool)
                ensures b == (ackable(id@, actor, responder_configured))(e@)
                { is_ackable(e, id, actor, responder_configured) },
            |e: &InboxEvent| -> (x: InboxEvent)
                ensures x@ == (closed_by(actor, now@))(e@)
                {
                    InboxEvent {
                        state: "handled".to_owned(),
                        acked_by: Some(by.to_owned()),
                        updated_at: now.to_owned(),
                        ..e.copied()
                    }
                },
            Ghost(hit),
            Ghost(closed_by(actor, now@)),
        );
        return AckOutcome::Acked;
    }
    match table::find(&s.inbox, |e: &InboxEvent| -> (b: bool)
        ensures b == (inbox::with_id(id@))(e@)
        { text::same(e.id.as_str(), id) }, Ghost(inbox::with_id(id@))) {
        None => AckOutcome::NotFound,
        Some(e) => if text::same(e.state.as_str(), "handled") {
            AckOutcome::AlreadyHandled
        } else {
            AckOutcome::ClaimedByOther(
                match owner_of(e) {
                    Some(o) => o.to_owned(),
                    None => "patrol".to_owned(),
                },
            )
        },
    }
}

fn is_ackable(e: &InboxEvent, id: &str, actor: Option<Role>, responder_configured: bool) -> (b: bool)
    ensures
        b == (ackable(id@, actor, responder_configured))(e@),
{
    text::same(e.id.as_str(), id) && !text::same(e.state.as_str(), "handled") && (match actor {
        None => true,
        Some(r) => is_collected(r, responder_configured, e),
    })
}

// ---------------------------------------------------------------- why a role was woken

/// How often each kind occurs, in the order of first occurrence.
pub open spec fn counted(tally: Seq<(Seq<char>, nat)>, kind: Seq<char>) -> Seq<(Seq<char>, nat)>
    decreases tally.len(),
{
    if tally.len() == 0 {
        seq![(kind, 1nat)]
    } else if tally.last().0 == kind {
        tally.drop_last().push((kind, tally.last().1 + 1))
    } else if tally.drop_last().map_values(|t: (Seq<char>, nat)| t.0).contains(kind) {
        counted(tally.drop_last(), kind).push(tally.last())
    } else {
        tally.push((kind, 1nat))
    }
}

/// The kinds of the events that wake, with how many there are of each.
pub open spec fn waking_kinds(events: Seq<InboxEventView>) -> Seq<(Seq<char>, nat)>
    decreases events.len(),
{
    if events.len() == 0 {
        seq![]
    } else {
        let before = waking_kinds(events.drop_last());
        if events.last().wake == Some(0i64) {
            before
        } else {
            counted(before, events.last().kind)
        }
    }
}

/// A kind and how often it occurs, as it is shown.
pub open spec fn shown(t: (Seq<char>, nat)) -> Seq<char> {
    if t.1 > 1 {
        t.0 + "×"@ + text::digits(t.1)
    } else {
        t.0
    }
}

/// The kinds as they are shown, separated by commas.
pub open spec fn reason_text(tally: Seq<(Seq<char>, nat)>) -> Seq<char>
    decreases tally.len(),
{
    if tally.len() == 0 {
        seq![]
    } else if tally.len() == 1 {
        shown(tally[0])
    } else {
        reason_text(tally.drop_last()) + ", "@ + shown(tally.last())
    }
}

/// The tally that a list of kinds and a list of numbers stand for.
spec fn tallied(kinds: Seq<String>, numbers: Seq<u64>) -> Seq<(Seq<char>, nat)> {
    Seq::new(kinds.len(), |i: int| (kinds[i]@, numbers[i] as nat))
}

proof fn counted_at(tally: Seq<(Seq<char>, nat)>, kind: Seq<char>, p: int)
    requires
        0 <= p < tally.len(),
        tally[p].0 == kind,
        forall|j: int| p < j < tally.len() ==> (#[trigger] tally[j]).0 != kind,
    ensures
        counted(tally, kind) == tally.update(p, (kind, tally[p].1 + 1)),
    decreases tally.len(),
{
    if p == tally.len() - 1 {
        assert(tally.drop_last().push((kind, tally.last().1 + 1)) =~= tally.update(p, (kind, tally[p].1 + 1)));
    } else {
        assert(tally[tally.len() - 1].0 != kind);
        let head = tally.drop_last();
        assert(head.map_values(|t: (Seq<char>, nat)| t.0)[p] == kind);
        assert forall|j: int| p < j < head.len() implies (#[trigger] head[j]).0 != kind by {
            assert(tally[j].0 != kind);
        }
        counted_at(head, kind, p);
        assert(head.update(p, (kind, head[p].1 + 1)).push(tally.last()) =~= tally.update(p, (kind, tally[p].1 + 1)));
    }
}

proof fn counted_new(tally: Seq<(Seq<char>, nat)>, kind: Seq<char>)
    requires
        forall|j: int| 0 <= j < tally.len() ==> (#[trigger] tally[j]).0 != kind,
    ensures
        counted(tally, kind) == tally.push((kind, 1nat)),
{
    if tally.len() > 0 {
        assert(tally[tally.len() - 1].0 != kind);
        let names = tally.drop_last().map_values(|t: (Seq<char>, nat)| t.0);
        if names.contains(kind) {
            let j = choose|j: int| 0 <= j < names.len() && names[j] == kind;
            assert(tally[j].0 == kind);
        }
    } else {
        assert(tally.push((kind, 1nat)) =~= seq![(kind, 1nat)]);
    }
}

proof fn tally_bound(events: Seq<InboxEventView>)
    ensures
        forall|i: int| 0 <= i < waking_kinds(events).len() ==> 1 <= (#[trigger] waking_kinds(events)[i]).1 <= events.len(),
    decreases events.len(),
{
    if events.len() > 0 {
        tally_bound(events.drop_last());
        let before = waking_kinds(events.drop_last());
        let n = events.drop_last().len();
        if events.last().wake != Some(0i64) {
            counted_bound(before, events.last().kind, n);
        }
    }
}

proof fn counted_bound(tally: Seq<(Seq<char>, nat)>, kind: Seq<char>, n: nat)
    requires
        forall|i: int| 0 <= i < tally.len() ==> 1 <= (#[trigger] tally[i]).1 <= n,
    ensures
        forall|i: int| 0 <= i < counted(tally, kind).len() ==> 1 <= (#[trigger] counted(tally, kind)[i]).1 <= n + 1,
    decreases tally.len(),
{
    if tally.len() > 0 {
        let head = tally.drop_last();
        assert forall|i: int| 0 <= i < head.len() implies 1 <= (#[trigger] head[i]).1 <= n by {
            assert(head[i] == tally[i]);
        }
        counted_bound(head, kind, n);
        let out = counted(tally, kind);
        assert(1 <= tally[tally.len() - 1].1 <= n);
        assert forall|i: int| 0 <= i < out.len() implies 1 <= (#[trigger] out[i]).1 <= n + 1 by {
            if tally.last().0 == kind {
                if i < head.len() {
                    assert(out[i] == head[i]);
                }
            } else if head.map_values(|t: (Seq<char>, nat)| t.0).contains(kind) {
                if i < counted(head, kind).len() {
                    assert(out[i] == counted(head, kind)[i]);
                }
            } else {
                if i < tally.len() {
                    assert(out[i] == tally[i]);
                }
            }
        }
    }
}

/// The kinds of event that a role was woken for.
pub fn wake_reason(events: &[InboxEvent]) -> (r: String)
    ensures
        r@ == reason_text(waking_kinds(table::views(events@))),
{
    let ghost all = table::views(events@);
    let mut kinds: Vec<String> = Vec::new();
    let mut numbers: Vec<u64> = Vec::new();
    let mut i: usize = 0;
    assert(all.take(0) =~= seq![]);
    assert(tallied(kinds@, numbers@) =~= seq![]);
    while i < events.len()
        invariant
            i <= events.len(),
            all == table::views(events@),
            kinds.len() == numbers.len(),
            tallied(kinds@, numbers@) == waking_kinds(all.take(i as int)),
        decreases events.len() - i,
    {
        let ghost upto = all.take(i as int + 1);
        let ghost before = tallied(kinds@, numbers@);
        assert(upto.drop_last() =~= all.take(i as int));
        assert(upto.last() == events@[i as int]@);
        let silent = match events[i].wake {
            Some(w) => w == 0,
            None => false,
        };
        if !silent {
            let kind = events[i].kind.as_str();
            let mut p: usize = kinds.len();
            while p > 0 && !text::same(kinds[p - 1].as_str(), kind)
                invariant
                    p <= kinds.len(),
                    kinds.len() == numbers.len(),
                    before == tallied(kinds@, numbers@),
                    forall|j: int| p <= j < kinds.len() ==> (#[trigger] before[j]).0 != kind@,
                decreases p,
            {
                p -= 1;
            }
            if p > 0 {
                let q: usize = p - 1;
                proof {
                    tally_bound(all.take(i as int));
                    counted_at(before, kind@, q as int);
                    assert(before[q as int].1 <= i);
                }
                let more: u64 = numbers[q] + 1;
                numbers.set(q, more);
                assert(tallied(kinds@, numbers@) =~= before.update(q as int, (kind@, before[q as int].1 + 1)));
            } else {
                proof {
                    counted_new(before, kind@);
                }
                kinds.push(kind.to_owned());
                numbers.push(1);
                assert(tallied(kinds@, numbers@) =~= before.push((kind@, 1nat)));
            }
        }
        i += 1;
    }
    assert(all.take(i as int) =~= all);
    let ghost tally = tallied(kinds@, numbers@);
    let mut out = String::new();
    let mut k: usize = 0;
    assert(out@ =~= reason_text(tally.take(0)));
    while k < kinds.len()
        invariant
            k <= kinds.len(),
            kinds.len() == numbers.len(),
            tally == tallied(kinds@, numbers@),
            out@ == reason_text(tally.take(k as int)),
        decreases kinds.len() - k,
    {
        let ghost upto = tally.take(k as int + 1);
        assert(upto.drop_last() =~= tally.take(k as int));
        let ghost was = out@;
        if k > 0 {
            out.append(", ");
        } else {
            assert(tally.take(0) =~= seq![]);
        }
        out.append(kinds[k].as_str());
        if numbers[k] > 1 {
            out.append("×");
            out.append(text::number(numbers[k]).as_str());
        }
        proof {
            assert(upto.last() == tally[k as int]);
            if k > 0 {
                assert(out@ =~= was + ", "@ + shown(tally[k as int]));
            } else {
                assert(out@ =~= shown(tally[k as int]));
            }
        }
        k += 1;
    }
    assert(tally.take(k as int) =~= tally);
    out
}

// ---------------------------------------------------------------- claims on record

/// An event that was really sent out left a trace of it. Attempts alone are none: a delivery that
/// never got out counts one too.
pub open spec fn was_sent(e: InboxEventView) -> bool {
    e.notify_turn_id is Some || e.delivered_at is Some || e.state == "delivered"@
}

fn sent_out(e: &InboxEvent) -> (r: bool)
    ensures
        r == was_sent(e@),
{
    e.notify_turn_id.is_some() || e.delivered_at.is_some() || text::same(e.state.as_str(), "delivered")
}

/// Events that were sent out before it was recorded to whom.
pub open spec fn sent_unclaimed() -> spec_fn(InboxEventView) -> bool {
    |e: InboxEventView| e.claimed_by is None && was_sent(e)
}

/// Pending events that are recorded as patrol's and that nobody ever sent out or acked.
pub open spec fn claimed_unsent() -> spec_fn(InboxEventView) -> bool {
    |e: InboxEventView|
        e.claimed_by == Some("patrol"@) && e.state == "pending"@ && e.acked_by is None && !was_sent(e)
}

/// An event with another claim.
pub open spec fn claimed_as(who: Option<Seq<char>>) -> spec_fn(InboxEventView) -> InboxEventView {
    |e: InboxEventView| (InboxEventView { claimed_by: who, ..e })
}

/// What recording old claims answers and leaves in the store.
pub open spec fn backfilling(s: StoreView, n: nat, after: StoreView) -> bool {
    &&& n == table::hits(s.inbox, sent_unclaimed())
    &&& after == (StoreView { inbox: table::changed(s.inbox, sent_unclaimed(), claimed_as(Some("patrol"@))), ..s })
}

/// What the one manager had received before there were two roles stays with patrol; how many events.
pub fn backfill_claims(s: &mut Store) -> (n: usize)
    ensures
        backfilling(old(s)@, n as nat, final(s)@),
{
    table::change(
        &mut s.inbox,
        |e: &InboxEvent| -> (b: bool)
            ensures b == (sent_unclaimed())(e@)
            { e.claimed_by.is_none() && sent_out(e) },
        |e: &InboxEvent| -> (x: InboxEvent)
            ensures x@ == (claimed_as(Some("patrol"@)))(e@)
            { InboxEvent { claimed_by: Some("patrol".to_owned()), ..e.copied() } },
        Ghost(sent_unclaimed()),
        Ghost(claimed_as(Some("patrol"@))),
    )
}

/// What giving back claims answers and leaves in the store.
pub open spec fn repairing(s: StoreView, n: nat, after: StoreView) -> bool {
    &&& n == table::hits(s.inbox, claimed_unsent())
    &&& after == (StoreView { inbox: table::changed(s.inbox, claimed_unsent(), claimed_as(None)), ..s })
}

/// Give back what was recorded as patrol's without ever having been sent out; how many events.
pub fn repair_unsent_patrol_claims(s: &mut Store) -> (n: usize)
    ensures
        repairing(old(s)@, n as nat, final(s)@),
{
    table::change(
        &mut s.inbox,
        |e: &InboxEvent| -> (b: bool)
            ensures b == (claimed_unsent())(e@)
            {
                text::is_text(&e.claimed_by, "patrol") && text::same(e.state.as_str(), "pending") && e.acked_by.is_none()
                    && !sent_out(e)
            },
        |e: &InboxEvent| -> (x: InboxEvent)
            ensures x@ == (claimed_as(None))(e@)
            { InboxEvent { claimed_by: None, ..e.copied() } },
        Ghost(claimed_unsent()),
        Ghost(claimed_as(None)),
    )
}

// ---------------------------------------------------------------- laws

proof fn role_names_differ()
    ensures
        Role::Patrol.name() != Role::Responder.name(),
{
    reveal_strlit("patrol");
    reveal_strlit("responder");
    assert("patrol"@.len() == 6 && "responder"@.len() == 9);
}

/// Once there is a responder, no event is due for both roles.
pub proof fn an_event_is_due_for_one_role(e: InboxEventView, now: Seq<char>, m: i64, n: i64)
    ensures
        !((due_now(Role::Patrol, true, now, m))(e) && (due_now(Role::Responder, true, now, n))(e)),
{
    role_names_differ();
}

/// As long as there is no responder, patrol is told everything that either role would be told.
pub proof fn without_a_responder_patrol_gets_everything(e: InboxEventView, now: Seq<char>, m: i64)
    ensures
        (due_now(Role::Responder, true, now, m))(e) ==> (due_now(Role::Patrol, false, now, m))(e),
        (due_now(Role::Patrol, true, now, m))(e) ==> (due_now(Role::Patrol, false, now, m))(e),
{
}

/// What a bot waits for is never dropped: an event of the responder's stays due however often its
/// delivery failed.
pub proof fn the_responders_events_never_run_out_of_tries(e: InboxEventView, tries: i64, now: Seq<char>, m: i64, n: i64)
    ensures
        (due_now(Role::Responder, true, now, m))(e) ==> (due_now(Role::Responder, true, now, n))(
            (InboxEventView { notify_attempts: tries, ..e }),
        ),
{
}

/// One event is handled by one role: once it was delivered to one, the other can neither be given it
/// nor close it, and it stays with the first even if it is sent again.
pub proof fn a_delivered_event_stays_with_its_role(
    e: InboxEventView,
    role: Role,
    other: Role,
    turn_id: Seq<char>,
    delivery: Seq<char>,
    now: Seq<char>,
    why: Seq<char>,
)
    requires
        role != other,
    ensures
        ({
            let d = (delivered_to(role, turn_id, delivery, now))(e);
            let back = (inbox::moved_to("pending"@, why, now))(d);
            &&& owner(d) == Some(role.name())
            &&& !(claimable(e.id, other))(d)
            &&& !(ackable(e.id, Some(other), true))(d)
            &&& (claimable(e.id, role))(d)
            &&& (ackable(e.id, Some(role), true))(d)
            &&& owner(back) == Some(role.name())
            &&& !(claimable(e.id, other))(back)
        }),
{
    role_names_differ();
    reveal_strlit("handled");
    reveal_strlit("delivered");
    reveal_strlit("pending");
    assert("handled"@[0] == 'h' && "delivered"@[0] == 'd' && "pending"@[0] == 'p');
}

/// An event is closed once: after that nobody, not even the user, closes it again.
pub proof fn an_event_is_closed_once(
    inbox: Seq<InboxEventView>,
    id: Seq<char>,
    actor: Option<Role>,
    configured: bool,
    now: Seq<char>,
)
    ensures
        !table::any(
            table::changed(inbox, ackable(id, actor, configured), closed_by(actor, now)),
            ackable(id, actor, configured),
        ),
        table::any(inbox, ackable(id, actor, configured)) && (forall|i: int, j: int|
            0 <= i < j < inbox.len() ==> (#[trigger] inbox[i]).id != (#[trigger] inbox[j]).id) ==> !table::any(
            table::changed(inbox, ackable(id, actor, configured), closed_by(actor, now)),
            ackable(id, None, configured),
        ),
{
    let hit = ackable(id, actor, configured);
    let after = table::changed(inbox, hit, closed_by(actor, now));
    assert forall|i: int| 0 <= i < after.len() implies !hit(#[trigger] after[i]) by {
        assert(after[i] == if hit(inbox[i]) {
            (closed_by(actor, now))(inbox[i])
        } else {
            inbox[i]
        });
    }
    if table::any(inbox, hit) && (forall|i: int, j: int|
        0 <= i < j < inbox.len() ==> (#[trigger] inbox[i]).id != (#[trigger] inbox[j]).id) {
        let k = choose|k: int| 0 <= k < inbox.len() && hit(#[trigger] inbox[k]);
        assert forall|i: int| 0 <= i < after.len() implies !(ackable(id, None, configured))(#[trigger] after[i]) by {
            if i < k {
                assert(inbox[i].id != inbox[k].id);
            } else if i > k {
                assert(inbox[k].id != inbox[i].id);
            }
        }
    }
}

/// Upgrading twice is upgrading once, and what was really sent out is never given back.
pub proof fn the_upgrade_is_reentrant(e: InboxEventView)
    ensures
        (sent_unclaimed())(e) ==> !(claimed_unsent())((claimed_as(Some("patrol"@)))(e)),
        (sent_unclaimed())(e) ==> !(sent_unclaimed())((claimed_as(Some("patrol"@)))(e)),
        (claimed_unsent())(e) ==> !(sent_unclaimed())((claimed_as(None))(e)),
        (claimed_unsent())(e) ==> !(claimed_unsent())((claimed_as(None))(e)),
        was_sent(e) ==> !(claimed_unsent())(e),
{
}

/// An event that has no role yet gets one, and whether it wakes; an event that has one keeps it. The
/// role is what routing says of its kind, its payload and the acceptance on record of its assignment.
pub proof fn every_event_gets_its_role(s: StoreView, n: nat, after: StoreView, i: int, k: int)
    requires
        classifying(s, n, after),
        0 <= i < s.inbox.len(),
    ensures
        after == (StoreView { inbox: after.inbox, ..s }),
        after.inbox.len() == s.inbox.len(),
        n == s.inbox.filter(|e: InboxEventView| e.role is None).len(),
        s.inbox[i].role is Some ==> after.inbox[i] == s.inbox[i],
        ({
            let was = s.inbox[i];
            let about = if was.assignment_id is Some && 0 <= k < s.assignments.len() && s.assignments[k].id
                == was.assignment_id->0 {
                s.assignments[k].review_role
            } else {
                None
            };
            let found = 0 <= k < s.assignments.len() && s.assignments[k].id == was.assignment_id->0 && forall|j: int|
                0 <= j < k ==> (#[trigger] s.assignments[j]).id != was.assignment_id->0;
            let unknown = forall|j: int|
                0 <= j < s.assignments.len() ==> (#[trigger] s.assignments[j]).id != was.assignment_id->0;
            let route = roles::routed(was.kind, roles::facts_of(was.payload_json), about);
            was.role is None && (was.assignment_id is None || found || unknown) ==> after.inbox[i] == (InboxEventView {
                role: Some(
                    if route.role == Role::Patrol {
                        "patrol"@
                    } else {
                        "responder"@
                    },
                ),
                wake: Some(
                    if route.wake {
                        1i64
                    } else {
                        0i64
                    },
                ),
                ..was
            })
        }),
{
    let was = s.inbox[i];
    assert(unclassified() =~= |e: InboxEventView| e.role is None);
    if was.assignment_id is Some {
        let hit = assignments::with_id(was.assignment_id->0);
        if 0 <= k < s.assignments.len() && s.assignments[k].id == was.assignment_id->0 && (forall|j: int|
            0 <= j < k ==> (#[trigger] s.assignments[j]).id != was.assignment_id->0) {
            table::first_at(s.assignments, hit, k);
        } else if forall|j: int| 0 <= j < s.assignments.len() ==> (#[trigger] s.assignments[j]).id != was.assignment_id->0 {
            table::first_of_none(s.assignments, hit);
        }
    }
}

/// A role is told what waits for it: its own events, those that were delivered to it before those that
/// were routed to it, and patrol the responder's too while there is no responder. What has to wait for
/// a moment waits for it; a patrol event stays out when its tries are used up, a responder event never.
pub proof fn what_a_role_is_told(
    rows: Seq<InboxEventView>,
    role: Role,
    responder_configured: bool,
    now: Seq<char>,
    max_attempts: i64,
    x: InboxEventView,
    i: int,
    j: int,
)
    ensures
        ({
            let list = due_list(rows, role, responder_configured, now, max_attempts);
            let whose = if x.claimed_by is Some {
                x.claimed_by
            } else {
                x.role
            };
            let mine = if role == Role::Patrol {
                whose == Some("patrol"@) || (!responder_configured && whose == Some("responder"@))
            } else {
                whose == Some("responder"@)
            };
            &&& list.contains(x) <==> {
                &&& rows.contains(x)
                &&& x.state == "pending"@
                &&& mine
                &&& x.notify_next_at is None || !text::text_before(now, x.notify_next_at->0)
                &&& whose == Some("responder"@) || x.notify_attempts < max_attempts
            }
            &&& 0 <= i < j < list.len() ==> !text::text_before(list[j].created_at, list[i].created_at) && (list[i].created_at
                == list[j].created_at ==> !text::text_before(list[j].id, list[i].id))
        }),
{
    role_names_differ();
    table::ranked_by_two_texts(
        inbox::older_by_id(),
        |e: InboxEventView| e.created_at,
        |e: InboxEventView| e.id,
        true,
    );
    table::listing(rows, due_now(role, responder_configured, now, max_attempts), inbox::older_by_id(), x, i, j);
}

/// A list for a role holds that role's events and no other's, the closed ones only where they are asked
/// for; the work view begins with the oldest, the audit view with the newest, and a limit cuts the end.
pub proof fn what_is_listed_for_a_role(
    rows: Seq<InboxEventView>,
    role: Option<Role>,
    all: bool,
    limit: int,
    x: InboxEventView,
    i: int,
    j: int,
)
    ensures
        ({
            let list = role_list(rows, role, all, limit);
            let whose = if x.claimed_by is Some {
                x.claimed_by
            } else {
                x.role
            };
            let asked = {
                &&& all || x.state != "handled"@
                &&& role == Some(Role::Patrol) ==> whose == Some("patrol"@)
                &&& role == Some(Role::Responder) ==> whose == Some("responder"@)
            };
            &&& list.contains(x) ==> rows.contains(x) && asked
            &&& limit >= 0 ==> list.len() <= limit
            &&& (limit < 0 || list.len() < limit) && rows.contains(x) && asked ==> list.contains(x)
            &&& 0 <= i < j < list.len() && !all ==> !text::text_before(list[j].created_at, list[i].created_at)
            &&& 0 <= i < j < list.len() && all ==> !text::text_before(list[i].created_at, list[j].created_at)
            &&& rows.contains(x) && asked && !list.contains(x) && 0 <= i < list.len() && !all ==> !text::text_before(
                x.created_at,
                list[i].created_at,
            )
            &&& rows.contains(x) && asked && !list.contains(x) && 0 <= i < list.len() && all ==> !text::text_before(
                list[i].created_at,
                x.created_at,
            )
        }),
{
    table::ranked_by_two_texts(
        list_order(all),
        |e: InboxEventView| e.created_at,
        |e: InboxEventView| e.id,
        !all,
    );
    table::listing_up_to(rows, listed(role, all), list_order(all), limit, x, i, j);
}

proof fn delivered_once(
    inbox: Seq<InboxEventView>,
    ids: Seq<Seq<char>>,
    role: Role,
    turn_id: Seq<char>,
    delivery: Seq<char>,
    now: Seq<char>,
    i: int,
)
    requires
        0 <= i < inbox.len(),
        forall|a: int, b: int| 0 <= a < b < ids.len() ==> #[trigger] ids[a] != #[trigger] ids[b],
    ensures
        delivered_each(inbox, ids, role, turn_id, delivery, now).0.len() == inbox.len(),
        delivered_each(inbox, ids, role, turn_id, delivery, now).0[i] == if ids.contains(inbox[i].id) && (claimable(
            inbox[i].id,
            role,
        ))(inbox[i]) {
            (delivered_to(role, turn_id, delivery, now))(inbox[i])
        } else {
            inbox[i]
        },
    decreases ids.len(),
{
    if ids.len() > 0 {
        let less = ids.drop_last();
        delivered_once(inbox, less, role, turn_id, delivery, now, i);
        assert(ids.last() == ids[ids.len() - 1]);
        if less.contains(inbox[i].id) {
            let m = choose|m: int| 0 <= m < less.len() && less[m] == inbox[i].id;
            assert(ids[m] == inbox[i].id);
            assert(ids[m] != ids[ids.len() - 1]);
        }
        if ids.contains(inbox[i].id) && !less.contains(inbox[i].id) {
            let k = choose|k: int| 0 <= k < ids.len() && ids[k] == inbox[i].id;
            if k < less.len() {
                assert(less[k] == inbox[i].id);
            }
        }
    }
}

/// A delivery is written on each event that it names, once: whose it is from now on, in which turn it
/// went out and when, and one more try. An event that is closed, or that the other role got, stays as
/// it is, and so does every event that is not named.
pub proof fn a_delivery_is_written_on_the_events_it_names(
    s: StoreView,
    ids: Seq<Seq<char>>,
    role: Role,
    turn_id: Seq<char>,
    delivery: Seq<char>,
    now: Seq<char>,
    n: usize,
    after: StoreView,
    i: int,
)
    requires
        delivering(s, ids, role, turn_id, delivery, now, n, after),
        0 <= i < s.inbox.len(),
        forall|a: int, b: int| 0 <= a < b < ids.len() ==> #[trigger] ids[a] != #[trigger] ids[b],
    ensures
        after == (StoreView { inbox: after.inbox, ..s }),
        after.inbox.len() == s.inbox.len(),
        ({
            let was = s.inbox[i];
            let name = if role == Role::Patrol {
                "patrol"@
            } else {
                "responder"@
            };
            after.inbox[i] == if ids.contains(was.id) && was.state != "handled"@ && (was.claimed_by is None || was.claimed_by
                == Some(name)) {
                InboxEventView {
                    state: "delivered"@,
                    claimed_by: Some(name),
                    notify_turn_id: Some(turn_id),
                    notify_delivery: Some(delivery),
                    delivered_at: Some(now),
                    notify_attempts: if was.notify_attempts < i64::MAX {
                        (was.notify_attempts + 1) as i64
                    } else {
                        i64::MAX
                    },
                    notify_next_at: None,
                    notify_error: None,
                    updated_at: now,
                    ..was
                }
            } else {
                was
            }
        }),
{
    delivered_once(s.inbox, ids, role, turn_id, delivery, now, i);
}

/// How many events a delivery of one event took: the one it names, where that role may have it.
pub proof fn a_delivery_counts_what_it_took(
    s: StoreView,
    id: Seq<char>,
    role: Role,
    turn_id: Seq<char>,
    delivery: Seq<char>,
    now: Seq<char>,
    n: usize,
    after: StoreView,
)
    requires
        delivering(s, seq![id], role, turn_id, delivery, now, n, after),
        s.inbox.len() <= usize::MAX,
    ensures
        n == s.inbox.filter(
            |e: InboxEventView|
                e.id == id && e.state != "handled"@ && (e.claimed_by is None || e.claimed_by == Some(
                    if role == Role::Patrol {
                        "patrol"@
                    } else {
                        "responder"@
                    },
                )),
        ).len(),
{
    let ids = seq![id];
    assert(ids.drop_last() =~= seq![]);
    assert(claimable(id, role) =~= |e: InboxEventView|
        e.id == id && e.state != "handled"@ && (e.claimed_by is None || e.claimed_by == Some(
            if role == Role::Patrol {
                "patrol"@
            } else {
                "responder"@
            },
        )));
    s.inbox.lemma_filter_len(claimable(id, role));
    reveal_with_fuel(delivered_each, 2);
}

/// The user closes every event, a role its own, and patrol the responder's too while there is no
/// responder. What is closed says who closed it and when, and nothing else changes; an event of the
/// other role stays open, and the caller is told whose it is.
pub proof fn an_event_is_closed_by_who_may(
    s: StoreView,
    now: Seq<char>,
    id: Seq<char>,
    actor: Option<Role>,
    responder_configured: bool,
    r: AckOutcomeView,
    after: StoreView,
    i: int,
)
    requires
        acking(s, now, id, actor, responder_configured, r, after),
        0 <= i < s.inbox.len(),
        s.inbox[i].id == id,
        forall|j: int| 0 <= j < s.inbox.len() && j != i ==> (#[trigger] s.inbox[j]).id != id,
    ensures
        ({
            let was = s.inbox[i];
            let whose = if was.claimed_by is Some {
                was.claimed_by
            } else {
                was.role
            };
            let allowed = match actor {
                None => true,
                Some(Role::Patrol) => whose == Some("patrol"@) || (!responder_configured && whose == Some("responder"@)),
                Some(Role::Responder) => whose == Some("responder"@),
            };
            &&& after == (StoreView { inbox: after.inbox, ..s })
            &&& r is Acked <==> was.state != "handled"@ && allowed
            &&& r is AlreadyHandled <==> was.state == "handled"@
            &&& !(r is NotFound)
            &&& was.state != "handled"@ && !allowed ==> r == AckOutcomeView::ClaimedByOther(
                if whose is Some {
                    whose->0
                } else {
                    "patrol"@
                },
            )
            &&& !(r is Acked) ==> after == s
            &&& r is Acked ==> after.inbox == s.inbox.update(
                i,
                InboxEventView {
                    state: "handled"@,
                    acked_by: Some(
                        match actor {
                            None => "user"@,
                            Some(Role::Patrol) => "patrol"@,
                            Some(Role::Responder) => "responder"@,
                        },
                    ),
                    updated_at: now,
                    ..was
                },
            )
        }),
{
    role_names_differ();
    let hit = ackable(id, actor, responder_configured);
    assert forall|j: int| 0 <= j < s.inbox.len() && j != i implies !hit(#[trigger] s.inbox[j]) && !(inbox::with_id(id))(
        s.inbox[j],
    ) by {}
    table::first_at(s.inbox, inbox::with_id(id), i);
    if hit(s.inbox[i]) {
        assert(table::any(s.inbox, hit));
        assert(after.inbox =~= s.inbox.update(i, (closed_by(actor, now))(s.inbox[i])));
    } else {
        assert(!table::any(s.inbox, hit));
    }
}

/// Nothing is closed under an id that no event has.
pub proof fn an_unknown_event_is_not_closed(
    s: StoreView,
    now: Seq<char>,
    id: Seq<char>,
    actor: Option<Role>,
    responder_configured: bool,
    r: AckOutcomeView,
    after: StoreView,
)
    requires
        acking(s, now, id, actor, responder_configured, r, after),
        forall|j: int| 0 <= j < s.inbox.len() ==> (#[trigger] s.inbox[j]).id != id,
    ensures
        r is NotFound,
        after == s,
{
    let hit = ackable(id, actor, responder_configured);
    assert forall|j: int| 0 <= j < s.inbox.len() implies !hit(#[trigger] s.inbox[j]) by {}
    table::first_of_none(s.inbox, inbox::with_id(id));
}

/// What went out before it was recorded to whom is patrol's from now on; what was recorded as patrol's,
/// waits and never went out is given back. Everything else keeps its claim.
pub proof fn claims_follow_what_went_out(s: StoreView, n: nat, filled: StoreView, m: nat, repaired: StoreView, i: int)
    requires
        backfilling(s, n, filled),
        repairing(s, m, repaired),
        0 <= i < s.inbox.len(),
    ensures
        ({
            let was = s.inbox[i];
            let went_out = was.notify_turn_id is Some || was.delivered_at is Some || was.state == "delivered"@;
            &&& filled == (StoreView { inbox: filled.inbox, ..s }) && filled.inbox.len() == s.inbox.len()
            &&& repaired == (StoreView { inbox: repaired.inbox, ..s }) && repaired.inbox.len() == s.inbox.len()
            &&& filled.inbox[i] == (InboxEventView {
                claimed_by: if was.claimed_by is None && went_out {
                    Some("patrol"@)
                } else {
                    was.claimed_by
                },
                ..was
            })
            &&& repaired.inbox[i] == (InboxEventView {
                claimed_by: if was.claimed_by == Some("patrol"@) && was.state == "pending"@ && was.acked_by is None
                    && !went_out {
                    None
                } else {
                    was.claimed_by
                },
                ..was
            })
        }),
        n == s.inbox.filter(
            |e: InboxEventView|
                e.claimed_by is None && (e.notify_turn_id is Some || e.delivered_at is Some || e.state == "delivered"@),
        ).len(),
        m == s.inbox.filter(
            |e: InboxEventView|
                e.claimed_by == Some("patrol"@) && e.state == "pending"@ && e.acked_by is None && !(e.notify_turn_id is Some
                    || e.delivered_at is Some || e.state == "delivered"@),
        ).len(),
{
    assert(sent_unclaimed() =~= |e: InboxEventView|
        e.claimed_by is None && (e.notify_turn_id is Some || e.delivered_at is Some || e.state == "delivered"@));
    assert(claimed_unsent() =~= |e: InboxEventView|
        e.claimed_by == Some("patrol"@) && e.state == "pending"@ && e.acked_by is None && !(e.notify_turn_id is Some
            || e.delivered_at is Some || e.state == "delivered"@));
}

proof fn tally_is_exact(events: Seq<InboxEventView>)
    ensures
        ({
            let t = waking_kinds(events);
            &&& forall|a: int, b: int| 0 <= a < b < t.len() ==> (#[trigger] t[a]).0 != (#[trigger] t[b]).0
            &&& forall|a: int|
                0 <= a < t.len() ==> (#[trigger] t[a]).1 == events.filter(
                    |e: InboxEventView| e.kind == t[a].0 && e.wake != Some(0i64),
                ).len()
            &&& forall|k: int|
                0 <= k < events.len() && (#[trigger] events[k]).wake != Some(0i64) ==> exists|a: int|
                    0 <= a < t.len() && (#[trigger] t[a]).0 == events[k].kind
            &&& forall|a: int| 0 <= a < t.len() ==> (#[trigger] t[a]).1 > 0
        }),
    decreases events.len(),
{
    reveal(Seq::filter);
    if events.len() > 0 {
        let head = events.drop_last();
        let last = events.last();
        tally_is_exact(head);
        let b = waking_kinds(head);
        let t = waking_kinds(events);
        if last.wake != Some(0i64) {
            if exists|p: int| 0 <= p < b.len() && (#[trigger] b[p]).0 == last.kind {
                let p = choose|p: int| 0 <= p < b.len() && (#[trigger] b[p]).0 == last.kind;
                assert forall|j: int| p < j < b.len() implies (#[trigger] b[j]).0 != last.kind by {
                    assert(b[p].0 != b[j].0);
                }
                counted_at(b, last.kind, p);
                assert(t == b.update(p, (last.kind, b[p].1 + 1)));
                assert forall|k: int| 0 <= k < events.len() && (#[trigger] events[k]).wake != Some(0i64) implies exists|a: int|
                    0 <= a < t.len() && (#[trigger] t[a]).0 == events[k].kind by {
                    if k < head.len() {
                        assert(head[k] == events[k]);
                        let a = choose|a: int| 0 <= a < b.len() && (#[trigger] b[a]).0 == events[k].kind;
                        assert(t[a].0 == events[k].kind);
                    } else {
                        assert(t[p].0 == events[k].kind);
                    }
                }
            } else {
                counted_new(b, last.kind);
                assert(t == b.push((last.kind, 1nat)));
                none_of_a_kind(head, last.kind);
                assert forall|k: int| 0 <= k < events.len() && (#[trigger] events[k]).wake != Some(0i64) implies exists|a: int|
                    0 <= a < t.len() && (#[trigger] t[a]).0 == events[k].kind by {
                    if k < head.len() {
                        assert(head[k] == events[k]);
                        let a = choose|a: int| 0 <= a < b.len() && (#[trigger] b[a]).0 == events[k].kind;
                        assert(t[a] == b[a]);
                    } else {
                        assert(t[b.len() as int].0 == events[k].kind);
                    }
                }
            }
        } else {
            assert forall|k: int| 0 <= k < events.len() && (#[trigger] events[k]).wake != Some(0i64) implies exists|a: int|
                0 <= a < t.len() && (#[trigger] t[a]).0 == events[k].kind by {
                assert(head[k] == events[k]);
            }
        }
    }
}

proof fn none_of_a_kind(events: Seq<InboxEventView>, kind: Seq<char>)
    requires
        forall|k: int|
            0 <= k < events.len() && (#[trigger] events[k]).wake != Some(0i64) ==> events[k].kind != kind,
    ensures
        events.filter(|e: InboxEventView| e.kind == kind && e.wake != Some(0i64)).len() == 0,
    decreases events.len(),
{
    reveal(Seq::filter);
    if events.len() > 0 {
        assert(events.last() == events[events.len() - 1]);
        assert forall|k: int| 0 <= k < events.drop_last().len() && (#[trigger] events.drop_last()[k]).wake != Some(0i64) implies
            events.drop_last()[k].kind != kind by {
            assert(events.drop_last()[k] == events[k]);
        }
        none_of_a_kind(events.drop_last(), kind);
    }
}

/// The reason of a wake names every kind of event that wakes, each once, with how many there are of
/// it; an event that is marked as silent is not counted.
pub proof fn a_wake_names_each_kind_once(events: Seq<InboxEventView>, a: int, b: int, k: int)
    ensures
        ({
            let t = waking_kinds(events);
            &&& 0 <= a < b < t.len() ==> t[a].0 != t[b].0
            &&& 0 <= a < t.len() ==> t[a].1 > 0 && t[a].1 == events.filter(
                |e: InboxEventView| e.kind == t[a].0 && e.wake != Some(0i64),
            ).len()
            &&& 0 <= k < events.len() && events[k].wake != Some(0i64) ==> exists|c: int|
                0 <= c < t.len() && (#[trigger] t[c]).0 == events[k].kind
        }),
{
    tally_is_exact(events);
}

/// A reason is the kinds with commas between them, and a kind that occurs more than once has its
/// number behind it.
pub proof fn a_reason_is_read_off_the_tally(tally: Seq<(Seq<char>, nat)>, kind: Seq<char>, n: nat)
    ensures
        reason_text(seq![]) == Seq::<char>::empty(),
        reason_text(seq![(kind, 1nat)]) == kind,
        n > 1 ==> reason_text(seq![(kind, n)]) == kind + "×"@ + text::digits(n),
        tally.len() > 0 ==> reason_text(tally.push((kind, n))) == reason_text(tally) + ", "@ + reason_text(seq![(kind, n)]),
{
    assert(tally.push((kind, n)).drop_last() =~= tally);
    assert(seq![(kind, n)][0] == (kind, n));
}

} // verus!
