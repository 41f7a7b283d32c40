//! The manager's inbox: events wait here until somebody acks them.
//!
//! An event lands once, however often it is reported, and an acknowledgement never goes backwards.
use crate::rows::{InboxEvent, InboxEventView};
use crate::store::{Store, StoreView};
use crate::table;
use crate::table::Row;
use crate::text;
use crate::time;
use vstd::prelude::*;

verus! {

/// An event as it is written down.
pub open spec fn fresh_event(
    id: Seq<char>,
    event_key: Seq<char>,
    kind: Seq<char>,
    assignment_id: Option<Seq<char>>,
    bot_id: Option<Seq<char>>,
    turn_id: Option<Seq<char>>,
    payload: Seq<char>,
    now: Seq<char>,
) -> InboxEventView {
    InboxEventView {
        id,
        event_key,
        assignment_id,
        bot_id,
        turn_id,
        kind,
        payload_json: payload,
        state: "pending"@,
        notify_turn_id: None,
        notify_delivery: None,
        notify_attempts: 0,
        notify_next_at: None,
        notify_error: None,
        delivered_at: None,
        created_at: now,
        updated_at: now,
        role: None,
        wake: None,
        claimed_by: None,
        acked_by: None,
        merged_into: None,
    }
}

/// An event with this key, or this id, is already there.
pub open spec fn known_event(id: Seq<char>, event_key: Seq<char>) -> spec_fn(InboxEventView) -> bool {
    |e: InboxEventView| e.event_key == event_key || e.id == id
}

/// The inbox after an event was reported: one more, unless it is known.
pub open spec fn with_event(inbox: Seq<InboxEventView>, e: InboxEventView) -> Seq<InboxEventView> {
    if table::any(inbox, known_event(e.id, e.event_key)) {
        inbox
    } else {
        inbox.push(e)
    }
}

/// Every event has a key of its own.
pub open spec fn keys_are_unique(inbox: Seq<InboxEventView>) -> bool {
    forall|i: int, j: int|
        0 <= i < j < inbox.len() ==> (#[trigger] inbox[i]).event_key != (#[trigger] inbox[j]).event_key
}

/// What reporting an event answers and leaves in the store.
pub open spec fn reporting(
    s: StoreView,
    now: Seq<char>,
    id: Seq<char>,
    event_key: Seq<char>,
    kind: Seq<char>,
    assignment_id: Option<Seq<char>>,
    bot_id: Option<Seq<char>>,
    turn_id: Option<Seq<char>>,
    payload: Seq<char>,
    res: Option<Seq<char>>,
    after: StoreView,
) -> bool {
    &&& res == if table::any(s.inbox, known_event(id, event_key)) {
        None
    } else {
        Some(id)
    }
    &&& after == (StoreView {
        inbox: with_event(s.inbox, fresh_event(id, event_key, kind, assignment_id, bot_id, turn_id, payload, now)),
        ..s
    })
}

/// Insert an event unless it is already known; `None` is a duplicate, which is the normal outcome
/// for a replayed event or a rescan.
pub fn push_inbox(
    s: &mut Store,
    now: &str,
    id: &str,
    event_key: &str,
    kind: &str,
    assignment_id: Option<&str>,
    bot_id: Option<&str>,
    turn_id: Option<&str>,
    payload: &str,
) -> (res: Option<String>)
    ensures
        reporting(
            old(s)@,
            now@,
            id@,
            event_key@,
            kind@,
            text::arg(assignment_id),
            text::arg(bot_id),
            text::arg(turn_id),
            payload@,
            text::opt(res),
            final(s)@,
        ),
{
    let known = table::find(&s.inbox, |e: &InboxEvent| -> (b: bool)
        ensures b == (known_event(id@, event_key@))(e@)
        { text::same(e.event_key.as_str(), event_key) || text::same(e.id.as_str(), id) }, Ghost(known_event(id@, event_key@))).is_some();
    proof {
        table::first_is_a_hit(s@.inbox, known_event(id@, event_key@));
    }
    if known {
        return None;
    }
    let ghost was = s@.inbox;
    s.inbox.push(
        InboxEvent {
            id: id.to_owned(),
            event_key: event_key.to_owned(),
            assignment_id: text::owned(assignment_id),
            bot_id: text::owned(bot_id),
            turn_id: text::owned(turn_id),
            kind: kind.to_owned(),
            payload_json: payload.to_owned(),
            state: "pending".to_owned(),
            notify_turn_id: None,
            notify_delivery: None,
            notify_attempts: 0,
            notify_next_at: None,
            notify_error: None,
            delivered_at: None,
            created_at: now.to_owned(),
            updated_at: now.to_owned(),
            role: None,
            wake: None,
            claimed_by: None,
            acked_by: None,
            merged_into: None,
        },
    );
    assert(s@.inbox =~= was.push(s@.inbox.last()));
    Some(id.to_owned())
}

// ---------------------------------------------------------------- lists

/// One event was written after another.
pub open spec fn newer() -> spec_fn(InboxEventView, InboxEventView) -> bool {
    |a: InboxEventView, b: InboxEventView| text::text_before(b.created_at, a.created_at)
}

/// One event was written before another.
pub open spec fn older() -> spec_fn(InboxEventView, InboxEventView) -> bool {
    |a: InboxEventView, b: InboxEventView| text::text_before(a.created_at, b.created_at)
}

/// One event was written before another; of two written at the same time the one with the smaller id.
pub open spec fn older_by_id() -> spec_fn(InboxEventView, InboxEventView) -> bool {
    |a: InboxEventView, b: InboxEventView|
        text::text_before(a.created_at, b.created_at) || (a.created_at == b.created_at && text::text_before(a.id, b.id))
}

/// When an event was delivered, or last touched.
pub open spec fn delivery_time(e: InboxEventView) -> Seq<char> {
    match e.delivered_at {
        Some(t) => t,
        None => e.updated_at,
    }
}

/// One event was delivered before another.
pub open spec fn delivered_earlier() -> spec_fn(InboxEventView, InboxEventView) -> bool {
    |a: InboxEventView, b: InboxEventView| text::text_before(delivery_time(a), delivery_time(b))
}

/// Events in one state.
pub open spec fn in_state(state: Seq<char>) -> spec_fn(InboxEventView) -> bool {
    |e: InboxEventView| e.state == state
}

/// Events that nobody has acked.
pub open spec fn unhandled() -> spec_fn(InboxEventView) -> bool {
    |e: InboxEventView| e.state != "handled"@
}

/// Pending events whose backoff has run out and whose retries have not.
pub open spec fn due(now: Seq<char>, max_attempts: i64) -> spec_fn(InboxEventView) -> bool {
    |e: InboxEventView|
        e.state == "pending"@ && (e.notify_next_at matches Some(t) ==> !time::ts_before(now, t)) && e.notify_attempts
            < max_attempts
}

/// Pending events for patrol that have spent their whole retry budget.
pub open spec fn exhausted(max_attempts: i64) -> spec_fn(InboxEventView) -> bool {
    |e: InboxEventView|
        e.state == "pending"@ && e.notify_attempts >= max_attempts && (e.role is None || e.role == Some("patrol"@))
}

/// At most `limit` events, the latest first.
pub open spec fn latest(rows: Seq<InboxEventView>, limit: int) -> Seq<InboxEventView> {
    table::limited(table::ordered(rows, newer()), limit)
}

/// At most `limit` events that nobody has acked, in the order they happened.
pub open spec fn open_list(rows: Seq<InboxEventView>, limit: int) -> Seq<InboxEventView> {
    table::limited(table::ordered(rows.filter(unhandled()), older_by_id()), limit)
}

/// The events that wait to be sent.
pub open spec fn pending_list(rows: Seq<InboxEventView>) -> Seq<InboxEventView> {
    table::ordered(rows.filter(in_state("pending"@)), older())
}

/// The events that were sent and are not acked, the oldest delivery first.
pub open spec fn delivered_list(rows: Seq<InboxEventView>) -> Seq<InboxEventView> {
    table::ordered(rows.filter(in_state("delivered"@)), delivered_earlier())
}

/// The events that are due to be sent now.
pub open spec fn due_list(rows: Seq<InboxEventView>, now: Seq<char>, max_attempts: i64) -> Seq<InboxEventView> {
    table::ordered(rows.filter(due(now, max_attempts)), older_by_id())
}

/// The events that are not sent any more.
pub open spec fn exhausted_list(rows: Seq<InboxEventView>, max_attempts: i64) -> Seq<InboxEventView> {
    table::ordered(rows.filter(exhausted(max_attempts)), older())
}

pub(crate) fn is_older(a: &InboxEvent, b: &InboxEvent) -> (r: bool)
    ensures
        r == (older())(a@, b@),
{
    text::precedes(a.created_at.as_str(), b.created_at.as_str())
}

pub(crate) fn is_older_by_id(a: &InboxEvent, b: &InboxEvent) -> (r: bool)
    ensures
        r == (older_by_id())(a@, b@),
{
    text::precedes(a.created_at.as_str(), b.created_at.as_str()) || (text::same(a.created_at.as_str(), b.created_at.as_str())
        && text::precedes(a.id.as_str(), b.id.as_str()))
}

/// The latest events.
pub fn inbox(s: &Store, limit: i64) -> (r: Vec<InboxEvent>)
    ensures
        table::views(r@) == latest(s@.inbox, limit as int),
{
    let all = table::select(&s.inbox, |e: &InboxEvent| -> (b: bool)
        ensures b
        { true }, Ghost(|e: InboxEventView| true));
    proof {
        table::filter_all(s@.inbox, |e: InboxEventView| true);
    }
    let sorted = table::arrange(all, |a: &InboxEvent, b: &InboxEvent| -> (c: bool)
        ensures c == (newer())(a@, b@)
        { is_older(b, a) }, Ghost(newer()));
    table::limit(sorted, limit)
}

/// Everything the manager has not acked yet, oldest first, so that a backlog is worked through in
/// the order it happened.
pub fn open_inbox(s: &Store, limit: i64) -> (r: Vec<InboxEvent>)
    ensures
        table::views(r@) == open_list(s@.inbox, limit as int),
{
    let rows = table::select(&s.inbox, |e: &InboxEvent| -> (b: bool)
        ensures b == (unhandled())(e@)
        { !text::same(e.state.as_str(), "handled") }, Ghost(unhandled()));
    let sorted = table::arrange(rows, |a: &InboxEvent, b: &InboxEvent| -> (c: bool)
        ensures c == (older_by_id())(a@, b@)
        { is_older_by_id(a, b) }, Ghost(older_by_id()));
    table::limit(sorted, limit)
}

pub fn pending_inbox(s: &Store) -> (r: Vec<InboxEvent>)
    ensures
        table::views(r@) == pending_list(s@.inbox),
{
    let rows = table::select(&s.inbox, |e: &InboxEvent| -> (b: bool)
        ensures b == (in_state("pending"@))(e@)
        { text::same(e.state.as_str(), "pending") }, Ghost(in_state("pending"@)));
    table::arrange(rows, |a: &InboxEvent, b: &InboxEvent| -> (c: bool)
        ensures c == (older())(a@, b@)
        { is_older(a, b) }, Ghost(older()))
}

/// Delivered events that are still unacked, oldest delivery first.
pub fn delivered_inbox(s: &Store) -> (r: Vec<InboxEvent>)
    ensures
        table::views(r@) == delivered_list(s@.inbox),
{
    let rows = table::select(&s.inbox, |e: &InboxEvent| -> (b: bool)
        ensures b == (in_state("delivered"@))(e@)
        { text::same(e.state.as_str(), "delivered") }, Ghost(in_state("delivered"@)));
    table::arrange(rows, |a: &InboxEvent, b: &InboxEvent| -> (c: bool)
        ensures c == (delivered_earlier())(a@, b@)
        { text::precedes(delivered_when(a), delivered_when(b)) }, Ghost(delivered_earlier()))
}

fn delivered_when(e: &InboxEvent) -> (r: &str)
    ensures
        r@ == delivery_time(e@),
{
    match &e.delivered_at {
        Some(t) => t.as_str(),
        None => e.updated_at.as_str(),
    }
}

/// Pending events whose backoff has not run out yet are skipped; everything else is due.
pub fn due_inbox(s: &Store, now: &str, max_attempts: i64) -> (r: Vec<InboxEvent>)
    ensures
        table::views(r@) == due_list(s@.inbox, now@, max_attempts),
{
    let rows = table::select(&s.inbox, |e: &InboxEvent| -> (b: bool)
        ensures b == (due(now@, max_attempts))(e@)
        { is_due(e, now) && e.notify_attempts < max_attempts }, Ghost(due(now@, max_attempts)));
    table::arrange(rows, |a: &InboxEvent, b: &InboxEvent| -> (c: bool)
        ensures c == (older_by_id())(a@, b@)
        { is_older_by_id(a, b) }, Ghost(older_by_id()))
}

fn is_due(e: &InboxEvent, now: &str) -> (r: bool)
    ensures
        r == (e@.state == "pending"@ && (e@.notify_next_at matches Some(t) ==> !time::ts_before(now@, t))),
{
    text::same(e.state.as_str(), "pending") && (match &e.notify_next_at {
        Some(t) => !time::is_earlier(now, t.as_str()),
        None => true,
    })
}

/// Events that have spent their whole retry budget. They stay pending, but are not pushed any more.
pub fn exhausted_inbox(s: &Store, max_attempts: i64) -> (r: Vec<InboxEvent>)
    ensures
        table::views(r@) == exhausted_list(s@.inbox, max_attempts),
{
    let rows = table::select(&s.inbox, |e: &InboxEvent| -> (b: bool)
        ensures b == (exhausted(max_attempts))(e@)
        {
            text::same(e.state.as_str(), "pending") && e.notify_attempts >= max_attempts && (e.role.is_none()
                || text::is_text(&e.role, "patrol"))
        }, Ghost(exhausted(max_attempts)));
    table::arrange(rows, |a: &InboxEvent, b: &InboxEvent| -> (c: bool)
        ensures c == (older())(a@, b@)
        { is_older(a, b) }, Ghost(older()))
}

/// Inbox events the manager has not acked.
pub fn open_inbox_count(s: &Store) -> (n: usize)
    ensures
        n == table::hits(s@.inbox, unhandled()),
{
    table::count(&s.inbox, |e: &InboxEvent| -> (b: bool)
        ensures b == (unhandled())(e@)
        { !text::same(e.state.as_str(), "handled") }, Ghost(unhandled()))
}

// ---------------------------------------------------------------- changes

/// The event with this id, unless it was acked.
pub open spec fn unhandled_id(id: Seq<char>) -> spec_fn(InboxEventView) -> bool {
    |e: InboxEventView| e.id == id && e.state != "handled"@
}

/// The event with this id, in this state.
pub open spec fn id_in_state(id: Seq<char>, state: Seq<char>) -> spec_fn(InboxEventView) -> bool {
    |e: InboxEventView| e.id == id && e.state == state
}

/// An event that was put into a prompt.
pub open spec fn prompted(turn_id: Seq<char>, delivery: Seq<char>, now: Seq<char>) -> spec_fn(
    InboxEventView,
) -> InboxEventView {
    |e: InboxEventView|
        (InboxEventView {
            state: "delivered"@,
            notify_turn_id: Some(turn_id),
            notify_delivery: Some(delivery),
            delivered_at: Some(now),
            notify_attempts: table::bumped(e.notify_attempts),
            notify_next_at: None,
            notify_error: None,
            updated_at: now,
            ..e
        })
}

/// An event whose notification did not land.
pub open spec fn deferred(next_at: Seq<char>, why: Seq<char>, now: Seq<char>) -> spec_fn(InboxEventView) -> InboxEventView {
    |e: InboxEventView|
        (InboxEventView {
            notify_attempts: table::bumped(e.notify_attempts),
            notify_next_at: Some(next_at),
            notify_error: Some(why),
            updated_at: now,
            ..e
        })
}

/// An event moved to another state with a reason.
pub open spec fn moved_to(state: Seq<char>, why: Seq<char>, now: Seq<char>) -> spec_fn(InboxEventView) -> InboxEventView {
    |e: InboxEventView|
        (InboxEventView { state, notify_error: Some(why), notify_next_at: None, updated_at: now, ..e })
}

/// The inbox after the same change was made to each id of a list, one after the other.
pub open spec fn changed_each(
    inbox: Seq<InboxEventView>,
    ids: Seq<Seq<char>>,
    to: spec_fn(InboxEventView) -> InboxEventView,
) -> Seq<InboxEventView>
    decreases ids.len(),
{
    if ids.len() == 0 {
        inbox
    } else {
        table::changed(changed_each(inbox, ids.drop_last(), to), unhandled_id(ids.last()), to)
    }
}

/// The store after events were put into a prompt.
pub open spec fn with_prompted(
    s: StoreView,
    ids: Seq<Seq<char>>,
    turn_id: Seq<char>,
    delivery: Seq<char>,
    now: Seq<char>,
) -> StoreView {
    StoreView { inbox: changed_each(s.inbox, ids, prompted(turn_id, delivery, now)), ..s }
}

/// The store after a notification of events did not land.
pub open spec fn with_deferred(
    s: StoreView,
    ids: Seq<Seq<char>>,
    next_at: Seq<char>,
    why: Seq<char>,
    now: Seq<char>,
) -> StoreView {
    StoreView { inbox: changed_each(s.inbox, ids, deferred(next_at, why, now)), ..s }
}

/// What taking a delivered event to another state answers and leaves in the store.
pub open spec fn leaving(
    s: StoreView,
    id: Seq<char>,
    state: Seq<char>,
    why: Seq<char>,
    now: Seq<char>,
    moved: bool,
    after: StoreView,
) -> bool {
    let hit = id_in_state(id, "delivered"@);
    &&& moved == table::any(s.inbox, hit)
    &&& after == (StoreView { inbox: table::changed(s.inbox, hit, moved_to(state, why, now)), ..s })
}

/// What closing an event answers and leaves in the store.
pub open spec fn closing(s: StoreView, id: Seq<char>, now: Seq<char>, found: bool, after: StoreView) -> bool {
    &&& found == table::any(s.inbox, with_id(id))
    &&& after == (StoreView { inbox: table::changed(s.inbox, with_id(id), acked(now)), ..s })
}

/// Prompted, not yet confirmed. Deliberately not `handled`: only an ack closes the event, so a
/// failed notification keeps it queued. An event that was acked meanwhile stays acked.
pub fn mark_delivered_inbox(s: &mut Store, now: &str, ids: &[String], notify_turn_id: &str, delivery: &str)
    ensures
        final(s)@ == with_prompted(old(s)@, text::texts(ids@), notify_turn_id@, delivery@, now@),
{
    let ghost to = prompted(notify_turn_id@, delivery@, now@);
    let ghost was = s@.inbox;
    let mut i: usize = 0;
    assert(text::texts(ids@).take(0) =~= Seq::<Seq<char>>::empty());
    while i < ids.len()
        invariant
            i <= ids.len(),
            to == prompted(notify_turn_id@, delivery@, now@),
            was == old(s)@.inbox,
            s@ == (StoreView { inbox: changed_each(was, text::texts(ids@).take(i as int), to), ..old(s)@ }),
        decreases ids.len() - i,
    {
        let id = ids[i].as_str();
        let ghost upto = text::texts(ids@).take(i as int + 1);
        assert(upto.drop_last() =~= text::texts(ids@).take(i as int));
        assert(upto.last() == id@);
        table::change(
            &mut s.inbox,
            |e: &InboxEvent| -> (b: bool)
                ensures b == (unhandled_id(id@))(e@)
                { text::same(e.id.as_str(), id) && !text::same(e.state.as_str(), "handled") },
            |e: &InboxEvent| -> (x: InboxEvent)
                ensures x@ == (prompted(notify_turn_id@, delivery@, now@))(e@)
                {
                    InboxEvent {
                        state: "delivered".to_owned(),
                        notify_turn_id: Some(notify_turn_id.to_owned()),
                        notify_delivery: Some(delivery.to_owned()),
                        delivered_at: Some(now.to_owned()),
                        notify_attempts: table::bump(e.notify_attempts),
                        notify_next_at: None,
                        notify_error: None,
                        updated_at: now.to_owned(),
                        ..e.copied()
                    }
                },
            Ghost(unhandled_id(id@)),
            Ghost(to),
        );
        i += 1;
    }
    assert(text::texts(ids@).take(i as int) =~= text::texts(ids@));
}

/// A notify attempt that did not land. The events stay where they are; only the attempt counter and
/// the backoff move.
pub fn defer_notify(s: &mut Store, now: &str, ids: &[String], next_at: &str, why: &str)
    ensures
        final(s)@ == with_deferred(old(s)@, text::texts(ids@), next_at@, why@, now@),
{
    let ghost to = deferred(next_at@, why@, now@);
    let ghost was = s@.inbox;
    let mut i: usize = 0;
    assert(text::texts(ids@).take(0) =~= Seq::<Seq<char>>::empty());
    while i < ids.len()
        invariant
            i <= ids.len(),
            to == deferred(next_at@, why@, now@),
            was == old(s)@.inbox,
            s@ == (StoreView { inbox: changed_each(was, text::texts(ids@).take(i as int), to), ..old(s)@ }),
        decreases ids.len() - i,
    {
        let id = ids[i].as_str();
        let ghost upto = text::texts(ids@).take(i as int + 1);
        assert(upto.drop_last() =~= text::texts(ids@).take(i as int));
        assert(upto.last() == id@);
        table::change(
            &mut s.inbox,
            |e: &InboxEvent| -> (b: bool)
                ensures b == (unhandled_id(id@))(e@)
                { text::same(e.id.as_str(), id) && !text::same(e.state.as_str(), "handled") },
            |e: &InboxEvent| -> (x: InboxEvent)
                ensures x@ == (deferred(next_at@, why@, now@))(e@)
                {
                    InboxEvent {
                        notify_attempts: table::bump(e.notify_attempts),
                        notify_next_at: Some(next_at.to_owned()),
                        notify_error: Some(why.to_owned()),
                        updated_at: now.to_owned(),
                        ..e.copied()
                    }
                },
            Ghost(unhandled_id(id@)),
            Ghost(to),
        );
        i += 1;
    }
    assert(text::texts(ids@).take(i as int) =~= text::texts(ids@));
}

fn leave_delivered(s: &mut Store, now: &str, id: &str, state: &str, why: &str) -> (moved: bool)
    ensures
        moved == table::any(old(s)@.inbox, id_in_state(id@, "delivered"@)),
        final(s)@ == (StoreView {
            inbox: table::changed(old(s)@.inbox, id_in_state(id@, "delivered"@), moved_to(state@, why@, now@)),
            ..old(s)@
        }),
{
    let ghost hit = id_in_state(id@, "delivered"@);
    let n = table::change(
        &mut s.inbox,
        |e: &InboxEvent| -> (b: bool)
            ensures b == (id_in_state(id@, "delivered"@))(e@)
            { text::same(e.id.as_str(), id) && text::same(e.state.as_str(), "delivered") },
        |e: &InboxEvent| -> (x: InboxEvent)
            ensures x@ == (moved_to(state@, why@, now@))(e@)
            {
                InboxEvent {
                    state: state.to_owned(),
                    notify_error: Some(why.to_owned()),
                    notify_next_at: None,
                    updated_at: now.to_owned(),
                    ..e.copied()
                }
            },
        Ghost(hit),
        Ghost(moved_to(state@, why@, now@)),
    );
    proof {
        table::any_is_counted(old(s)@.inbox, hit);
    }
    n > 0
}

/// Put a delivered but unanswered event back in the queue. `notify_turn_id` is kept: the next
/// attempt has to be able to check the original turn before anything is sent a second time.
pub fn requeue_inbox(s: &mut Store, now: &str, id: &str, why: &str) -> (moved: bool)
    ensures
        leaving(old(s)@, id@, "pending"@, why@, now@, moved, final(s)@),
{
    leave_delivered(s, now, id, "pending", why)
}

/// Stop re-sending this event. It is not closed: it still counts as unhandled and can be acked.
pub fn give_up_inbox(s: &mut Store, now: &str, id: &str, why: &str) -> (moved: bool)
    ensures
        leaving(old(s)@, id@, "gave_up"@, why@, now@, moved, final(s)@),
{
    leave_delivered(s, now, id, "gave_up", why)
}

/// An acked event.
pub open spec fn acked(now: Seq<char>) -> spec_fn(InboxEventView) -> InboxEventView {
    |e: InboxEventView| (InboxEventView { state: "handled"@, updated_at: now, ..e })
}

/// The event with this id.
pub open spec fn with_id(id: Seq<char>) -> spec_fn(InboxEventView) -> bool {
    |e: InboxEventView| e.id == id
}

/// Close an event, whoever it was for.
pub fn ack_inbox(s: &mut Store, now: &str, id: &str) -> (found: bool)
    ensures
        closing(old(s)@, id@, now@, found, final(s)@),
{
    let n = table::change(
        &mut s.inbox,
        |e: &InboxEvent| -> (b: bool)
            ensures b == (with_id(id@))(e@)
            { text::same(e.id.as_str(), id) },
        |e: &InboxEvent| -> (x: InboxEvent)
            ensures x@ == (acked(now@))(e@)
            { InboxEvent { state: "handled".to_owned(), updated_at: now.to_owned(), ..e.copied() } },
        Ghost(with_id(id@)),
        Ghost(acked(now@)),
    );
    proof {
        table::any_is_counted(old(s)@.inbox, with_id(id@));
    }
    n > 0
}

// ---------------------------------------------------------------- laws

/// The same event lands once: reporting a key again, under any id, with any contents and at any
/// time, changes nothing. The id of the first report is taken to be fresh.
pub proof fn an_event_key_lands_once(inbox: Seq<InboxEventView>, first: InboxEventView, again: InboxEventView)
    requires
        first.event_key == again.event_key,
        forall|i: int|
            0 <= i < inbox.len() && (#[trigger] inbox[i]).id == first.id ==> inbox[i].event_key == first.event_key,
    ensures
        with_event(with_event(inbox, first), again) == with_event(inbox, first),
{
    let after = with_event(inbox, first);
    let hit = known_event(again.id, again.event_key);
    if table::any(inbox, known_event(first.id, first.event_key)) {
        let i = choose|i: int| 0 <= i < inbox.len() && (known_event(first.id, first.event_key))(#[trigger] inbox[i]);
        assert(hit(after[i]));
    } else {
        assert(hit(after[inbox.len() as int]));
    }
}

/// Reporting an event keeps the keys unique and leaves every event that is there as it is.
pub proof fn reporting_keeps_keys_unique(inbox: Seq<InboxEventView>, e: InboxEventView)
    requires
        keys_are_unique(inbox),
    ensures
        keys_are_unique(with_event(inbox, e)),
        inbox.is_prefix_of(with_event(inbox, e)),
{
    let after = with_event(inbox, e);
    if !table::any(inbox, known_event(e.id, e.event_key)) {
        assert forall|i: int, j: int| 0 <= i < j < after.len() implies (#[trigger] after[i]).event_key != (
        #[trigger] after[j]).event_key by {
            if j == inbox.len() {
                assert(!(known_event(e.id, e.event_key))(inbox[i]));
            }
        }
    }
}

/// An acknowledgement never goes backwards: a notification, landed or not, leaves an acked event
/// exactly as it is, wherever its id stands in the list and however often.
pub proof fn an_ack_never_goes_backwards(
    inbox: Seq<InboxEventView>,
    ids: Seq<Seq<char>>,
    to: spec_fn(InboxEventView) -> InboxEventView,
    i: int,
)
    requires
        0 <= i < inbox.len(),
        inbox[i].state == "handled"@,
    ensures
        changed_each(inbox, ids, to).len() == inbox.len(),
        changed_each(inbox, ids, to)[i] == inbox[i],
    decreases ids.len(),
{
    if ids.len() > 0 {
        an_ack_never_goes_backwards(inbox, ids.drop_last(), to, i);
    }
}

/// Nor does a recovery: only a delivered event goes back to the queue or is given up.
pub proof fn recovery_leaves_acks_alone(
    inbox: Seq<InboxEventView>,
    id: Seq<char>,
    to: spec_fn(InboxEventView) -> InboxEventView,
    i: int,
)
    requires
        0 <= i < inbox.len(),
        inbox[i].state == "handled"@,
    ensures
        table::changed(inbox, id_in_state(id, "delivered"@), to)[i] == inbox[i],
{
    reveal_strlit("handled");
    reveal_strlit("delivered");
    assert("handled"@.len() == 7 && "delivered"@.len() == 9);
}

/// An event that is given up is still owed to somebody: it counts as unhandled, and an ack closes it.
pub proof fn giving_up_is_not_closing(e: InboxEventView, why: Seq<char>, now: Seq<char>)
    ensures
        (unhandled())((moved_to("gave_up"@, why, now))(e)),
        (unhandled_id(e.id))((moved_to("gave_up"@, why, now))(e)),
        !(in_state("pending"@))((moved_to("gave_up"@, why, now))(e)),
        !(in_state("delivered"@))((moved_to("gave_up"@, why, now))(e)),
{
    reveal_strlit("handled");
    reveal_strlit("gave_up");
    reveal_strlit("pending");
    reveal_strlit("delivered");
    assert("handled"@[0] == 'h' && "gave_up"@[0] == 'g' && "pending"@[0] == 'p' && "delivered"@[0] == 'd');
}

/// An event that is reported for the first time waits to be sent: it says what was reported of it, has
/// never been tried and belongs to nobody yet. An event whose key or id is known changes nothing, and
/// the caller is told so.
pub proof fn an_event_is_written_down_as_it_was_reported(
    s: StoreView,
    now: Seq<char>,
    id: Seq<char>,
    event_key: Seq<char>,
    kind: Seq<char>,
    assignment_id: Option<Seq<char>>,
    bot_id: Option<Seq<char>>,
    turn_id: Option<Seq<char>>,
    payload: Seq<char>,
    res: Option<Seq<char>>,
    after: StoreView,
)
    requires
        reporting(s, now, id, event_key, kind, assignment_id, bot_id, turn_id, payload, res, after),
    ensures
        after == (StoreView { inbox: after.inbox, ..s }),
        res is None ==> after == s,
        res is None <==> exists|i: int|
            0 <= i < s.inbox.len() && ((#[trigger] s.inbox[i]).event_key == event_key || s.inbox[i].id == id),
        res is Some ==> {
            let e = after.inbox.last();
            &&& res == Some(id)
            &&& after.inbox == s.inbox.push(e)
            &&& e.id == id
            &&& e.event_key == event_key
            &&& e.kind == kind
            &&& e.assignment_id == assignment_id
            &&& e.bot_id == bot_id
            &&& e.turn_id == turn_id
            &&& e.payload_json == payload
            &&& e.state == "pending"@
            &&& e.created_at == now
            &&& e.updated_at == now
            &&& e.notify_attempts == 0
            &&& e.notify_turn_id is None && e.notify_delivery is None && e.notify_next_at is None
            &&& e.notify_error is None && e.delivered_at is None
            &&& e.role is None && e.wake is None && e.claimed_by is None && e.acked_by is None && e.merged_into is None
        },
{
    let hit = known_event(id, event_key);
    if table::any(s.inbox, hit) {
        let i = choose|i: int| 0 <= i < s.inbox.len() && hit(#[trigger] s.inbox[i]);
        assert(s.inbox[i].event_key == event_key || s.inbox[i].id == id);
    } else {
        assert forall|i: int| 0 <= i < s.inbox.len() implies !hit(#[trigger] s.inbox[i]) by {}
    }
}

/// An event is due while it waits, its wait is over and it has tries left.
pub proof fn what_is_due(rows: Seq<InboxEventView>, now: Seq<char>, max_attempts: i64, x: InboxEventView, i: int, j: int)
    ensures
        due_list(rows, now, max_attempts).contains(x) <==> {
            &&& rows.contains(x)
            &&& x.state == "pending"@
            &&& x.notify_attempts < max_attempts
            &&& x.notify_next_at is None || !time::ts_before(now, x.notify_next_at->0)
        },
        0 <= i < j < due_list(rows, now, max_attempts).len() ==> {
            let (a, b) = (due_list(rows, now, max_attempts)[i], due_list(rows, now, max_attempts)[j]);
            !text::text_before(b.created_at, a.created_at) && (a.created_at == b.created_at ==> !text::text_before(
                b.id,
                a.id,
            ))
        },
{
    table::ranked_by_two_texts(older_by_id(), |e: InboxEventView| e.created_at, |e: InboxEventView| e.id, true);
    table::listing(rows, due(now, max_attempts), older_by_id(), x, i, j);
}

/// An event for patrol, or for nobody yet, that waits with no try left is not sent any more.
pub proof fn what_is_exhausted(rows: Seq<InboxEventView>, max_attempts: i64, x: InboxEventView, i: int, j: int)
    ensures
        exhausted_list(rows, max_attempts).contains(x) <==> {
            &&& rows.contains(x)
            &&& x.state == "pending"@
            &&& x.notify_attempts >= max_attempts
            &&& x.role is None || x.role == Some("patrol"@)
        },
        0 <= i < j < exhausted_list(rows, max_attempts).len() ==> !text::text_before(
            exhausted_list(rows, max_attempts)[j].created_at,
            exhausted_list(rows, max_attempts)[i].created_at,
        ),
{
    table::ranked_by_text(older(), |e: InboxEventView| e.created_at, true);
    table::listing(rows, exhausted(max_attempts), older(), x, i, j);
}

/// What waits, and what was sent and is not acked, is listed whole: the first in the order it was
/// written, the second in the order it was sent.
pub proof fn what_waits_and_what_was_sent(rows: Seq<InboxEventView>, x: InboxEventView, i: int, j: int)
    ensures
        pending_list(rows).contains(x) <==> rows.contains(x) && x.state == "pending"@,
        0 <= i < j < pending_list(rows).len() ==> !text::text_before(
            pending_list(rows)[j].created_at,
            pending_list(rows)[i].created_at,
        ),
        delivered_list(rows).contains(x) <==> rows.contains(x) && x.state == "delivered"@,
        0 <= i < j < delivered_list(rows).len() ==> {
            let (a, b) = (delivered_list(rows)[i], delivered_list(rows)[j]);
            !text::text_before(
                if b.delivered_at is Some {
                    b.delivered_at->0
                } else {
                    b.updated_at
                },
                if a.delivered_at is Some {
                    a.delivered_at->0
                } else {
                    a.updated_at
                },
            )
        },
{
    table::ranked_by_text(older(), |e: InboxEventView| e.created_at, true);
    table::listing(rows, in_state("pending"@), older(), x, i, j);
    table::ranked_by_text(delivered_earlier(), |e: InboxEventView| delivery_time(e), true);
    table::listing(rows, in_state("delivered"@), delivered_earlier(), x, i, j);
}

/// What nobody has acked is listed in the order it happened, up to the limit; the latest events are
/// listed from the newest back.
pub proof fn what_is_open_and_what_came_last(rows: Seq<InboxEventView>, limit: int, x: InboxEventView, i: int, j: int)
    ensures
        open_list(rows, limit).contains(x) ==> rows.contains(x) && x.state != "handled"@,
        limit >= 0 ==> open_list(rows, limit).len() <= limit,
        (limit < 0 || open_list(rows, limit).len() < limit) && rows.contains(x) && x.state != "handled"@ ==> open_list(
            rows,
            limit,
        ).contains(x),
        0 <= i < j < open_list(rows, limit).len() ==> !text::text_before(
            open_list(rows, limit)[j].created_at,
            open_list(rows, limit)[i].created_at,
        ),
        rows.contains(x) && x.state != "handled"@ && !open_list(rows, limit).contains(x) && 0 <= i < open_list(
            rows,
            limit,
        ).len() ==> !text::text_before(x.created_at, open_list(rows, limit)[i].created_at),
        latest(rows, limit).contains(x) ==> rows.contains(x),
        limit >= 0 ==> latest(rows, limit).len() <= limit,
        (limit < 0 || latest(rows, limit).len() < limit) && rows.contains(x) ==> latest(rows, limit).contains(x),
        0 <= i < j < latest(rows, limit).len() ==> !text::text_before(
            latest(rows, limit)[i].created_at,
            latest(rows, limit)[j].created_at,
        ),
        rows.contains(x) && !latest(rows, limit).contains(x) && 0 <= i < latest(rows, limit).len() ==> !text::text_before(
            latest(rows, limit)[i].created_at,
            x.created_at,
        ),
{
    table::ranked_by_two_texts(older_by_id(), |e: InboxEventView| e.created_at, |e: InboxEventView| e.id, true);
    table::listing_up_to(rows, unhandled(), older_by_id(), limit, x, i, j);
    table::ranked_by_text(newer(), |e: InboxEventView| e.created_at, false);
    let each = |e: InboxEventView| true;
    table::filter_all(rows, each);
    table::listing_up_to(rows, each, newer(), limit, x, i, j);
}

proof fn each_once(
    inbox: Seq<InboxEventView>,
    ids: Seq<Seq<char>>,
    to: spec_fn(InboxEventView) -> InboxEventView,
    i: int,
)
    requires
        0 <= i < inbox.len(),
        forall|a: int, b: int| 0 <= a < b < ids.len() ==> #[trigger] ids[a] != #[trigger] ids[b],
        forall|e: InboxEventView| (#[trigger] to(e)).id == e.id,
    ensures
        changed_each(inbox, ids, to).len() == inbox.len(),
        changed_each(inbox, ids, to)[i] == if inbox[i].state != "handled"@ && ids.contains(inbox[i].id) {
            to(inbox[i])
        } else {
            inbox[i]
        },
    decreases ids.len(),
{
    if ids.len() > 0 {
        let less = ids.drop_last();
        each_once(inbox, less, to, i);
        if ids.contains(inbox[i].id) {
            let k = choose|k: int| 0 <= k < ids.len() && ids[k] == inbox[i].id;
            if k < less.len() {
                assert(less[k] == inbox[i].id);
                assert(ids.last() != inbox[i].id);
            } else if less.contains(inbox[i].id) {
                let m = choose|m: int| 0 <= m < less.len() && less[m] == inbox[i].id;
                assert(ids[m] == ids[k]);
            }
        } else {
            assert(ids.last() == ids[ids.len() - 1]);
            if less.contains(inbox[i].id) {
                let m = choose|m: int| 0 <= m < less.len() && less[m] == inbox[i].id;
                assert(ids[m] == inbox[i].id);
            }
        }
    }
}

/// A notification counts as one more try of each event it names and of no other, unless the event was
/// acked: one that went out says in which turn and when, one that did not says when to try again and
/// why, and leaves the event in the state it was in.
pub proof fn a_notification_is_written_on_the_events_it_names(
    s: StoreView,
    ids: Seq<Seq<char>>,
    turn_id: Seq<char>,
    delivery: Seq<char>,
    next_at: Seq<char>,
    why: Seq<char>,
    now: Seq<char>,
    i: int,
)
    requires
        0 <= i < s.inbox.len(),
        forall|a: int, b: int| 0 <= a < b < ids.len() ==> #[trigger] ids[a] != #[trigger] ids[b],
    ensures
        ({
            let was = s.inbox[i];
            let named = was.state != "handled"@ && ids.contains(was.id);
            let tries = if was.notify_attempts < i64::MAX {
                (was.notify_attempts + 1) as i64
            } else {
                i64::MAX
            };
            let sent = with_prompted(s, ids, turn_id, delivery, now);
            let not_sent = with_deferred(s, ids, next_at, why, now);
            &&& sent == (StoreView { inbox: sent.inbox, ..s }) && sent.inbox.len() == s.inbox.len()
            &&& not_sent == (StoreView { inbox: not_sent.inbox, ..s }) && not_sent.inbox.len() == s.inbox.len()
            &&& sent.inbox[i] == if named {
                InboxEventView {
                    state: "delivered"@,
                    notify_turn_id: Some(turn_id),
                    notify_delivery: Some(delivery),
                    delivered_at: Some(now),
                    notify_attempts: tries,
                    notify_next_at: None,
                    notify_error: None,
                    updated_at: now,
                    ..was
                }
            } else {
                was
            }
            &&& not_sent.inbox[i] == if named {
                InboxEventView {
                    notify_attempts: tries,
                    notify_next_at: Some(next_at),
                    notify_error: Some(why),
                    updated_at: now,
                    ..was
                }
            } else {
                was
            }
        }),
{
    each_once(s.inbox, ids, prompted(turn_id, delivery, now), i);
    each_once(s.inbox, ids, deferred(next_at, why, now), i);
}

/// Only an event that was delivered is taken back or given up, with the reason, and its turn stays on
/// record; an ack closes the event whatever its state, and nothing but the event that is named changes.
pub proof fn an_event_leaves_its_state_with_the_reason(
    s: StoreView,
    id: Seq<char>,
    state: Seq<char>,
    why: Seq<char>,
    now: Seq<char>,
    moved: bool,
    left: StoreView,
    found: bool,
    closed: StoreView,
    i: int,
)
    requires
        leaving(s, id, state, why, now, moved, left),
        closing(s, id, now, found, closed),
        0 <= i < s.inbox.len(),
    ensures
        left == (StoreView { inbox: left.inbox, ..s }),
        closed == (StoreView { inbox: closed.inbox, ..s }),
        left.inbox.len() == s.inbox.len(),
        closed.inbox.len() == s.inbox.len(),
        moved <==> exists|k: int|
            0 <= k < s.inbox.len() && (#[trigger] s.inbox[k]).id == id && s.inbox[k].state == "delivered"@,
        found <==> exists|k: int| 0 <= k < s.inbox.len() && (#[trigger] s.inbox[k]).id == id,
        left.inbox[i] == if s.inbox[i].id == id && s.inbox[i].state == "delivered"@ {
            InboxEventView { state, notify_error: Some(why), notify_next_at: None, updated_at: now, ..s.inbox[i] }
        } else {
            s.inbox[i]
        },
        closed.inbox[i] == if s.inbox[i].id == id {
            InboxEventView { state: "handled"@, updated_at: now, ..s.inbox[i] }
        } else {
            s.inbox[i]
        },
{
    let hit = id_in_state(id, "delivered"@);
    if moved {
        let k = choose|k: int| 0 <= k < s.inbox.len() && hit(#[trigger] s.inbox[k]);
        assert(s.inbox[k].id == id);
    } else {
        assert forall|k: int| 0 <= k < s.inbox.len() implies !hit(#[trigger] s.inbox[k]) by {}
    }
    if found {
        let k = choose|k: int| 0 <= k < s.inbox.len() && (with_id(id))(#[trigger] s.inbox[k]);
        assert(s.inbox[k].id == id);
    } else {
        assert forall|k: int| 0 <= k < s.inbox.len() implies (#[trigger] s.inbox[k]).id != id by {
            assert(!(with_id(id))(s.inbox[k]));
        }
    }
}

} // verus!
