//! Decisions on assignments: accepting, failing, cancelling, blocking, and following up.
//!
//! A decision and the continuation it creates are one write, guarded on the status the decision was
//! taken against, and every decision leaves its record.
use crate::assignment_state;
use crate::assignments;
use crate::rows::{Assignment, AssignmentView, Review, ReviewView};
use crate::store::{Store, StoreError, StoreView};
use crate::table;
use crate::table::Row;
use crate::text;
use vstd::prelude::*;

verus! {

/// The status that a decision leads to; `None` for a word that is no decision.
pub open spec fn ruling(decision: Seq<char>) -> Option<Seq<char>> {
    if decision == "accept"@ {
        Some("completed"@)
    } else if decision == "fail"@ {
        Some("failed"@)
    } else if decision == "cancel"@ {
        Some("cancelled"@)
    } else if decision == "block"@ {
        Some("blocked"@)
    } else if decision == "followup"@ {
        Some("superseded"@)
    } else {
        None
    }
}

pub fn decision_status(decision: &str) -> (r: Option<&'static str>)
    ensures
        text::arg(r) == ruling(decision@),
{
    if text::same(decision, "accept") {
        Some("completed")
    } else if text::same(decision, "fail") {
        Some("failed")
    } else if text::same(decision, "cancel") {
        Some("cancelled")
    } else if text::same(decision, "block") {
        Some("blocked")
    } else if text::same(decision, "followup") {
        Some("superseded")
    } else {
        None
    }
}

/// A review record with this id.
pub open spec fn review_id_is(id: Seq<char>) -> spec_fn(ReviewView) -> bool {
    |r: ReviewView| r.id == id
}

fn review_taken(s: &Store, id: &str) -> (b: bool)
    ensures
        b == table::any(s@.reviews, review_id_is(id@)),
{
    proof {
        table::first_is_a_hit(s@.reviews, review_id_is(id@));
    }
    table::find(&s.reviews, |r: &Review| -> (c: bool)
        ensures c == (review_id_is(id@))(r@)
        { text::same(r.id.as_str(), id) }, Ghost(review_id_is(id@))).is_some()
}

/// An assignment moved to a status.
pub open spec fn put_on(status: Seq<char>) -> spec_fn(AssignmentView) -> AssignmentView {
    |a: AssignmentView| (AssignmentView { status, ..a })
}

/// An assignment with a decision written on it.
pub open spec fn reviewed(
    decision: Seq<char>,
    actor: Seq<char>,
    reason: Option<Seq<char>>,
    followup: Option<Seq<char>>,
    now: Seq<char>,
) -> spec_fn(AssignmentView) -> AssignmentView {
    |a: AssignmentView|
        (AssignmentView {
            review_decision: Some(decision),
            reviewed_by: Some(actor),
            reviewed_at: Some(now),
            review_reason: reason,
            followup_assignment_id: if followup is Some {
                followup
            } else {
                a.followup_assignment_id
            },
            updated_at: now,
            ..a
        })
}

/// The record of a decision.
pub open spec fn record(
    review_id: Seq<char>,
    id: Seq<char>,
    decision: Seq<char>,
    from: Seq<char>,
    to: Seq<char>,
    actor: Seq<char>,
    source: Seq<char>,
    reason: Option<Seq<char>>,
    evidence: Option<Seq<char>>,
    followup: Option<Seq<char>>,
    now: Seq<char>,
) -> ReviewView {
    ReviewView {
        id: review_id,
        assignment_id: id,
        decision,
        from_status: from,
        to_status: to,
        actor,
        source,
        reason,
        evidence,
        followup_assignment_id: followup,
        created_at: now,
    }
}

fn write_record(
    s: &mut Store,
    review_id: &str,
    id: &str,
    decision: &str,
    from: &str,
    to: &str,
    actor: &str,
    source: &str,
    reason: Option<&str>,
    evidence: Option<&str>,
    followup: Option<&str>,
    now: &str,
)
    ensures
        final(s)@ == (StoreView {
            reviews: old(s)@.reviews.push(
                record(
                    review_id@,
                    id@,
                    decision@,
                    from@,
                    to@,
                    actor@,
                    source@,
                    text::arg(reason),
                    text::arg(evidence),
                    text::arg(followup),
                    now@,
                ),
            ),
            ..old(s)@
        }),
{
    s.reviews.push(
        Review {
            id: review_id.to_owned(),
            assignment_id: id.to_owned(),
            decision: decision.to_owned(),
            from_status: from.to_owned(),
            to_status: to.to_owned(),
            actor: actor.to_owned(),
            source: source.to_owned(),
            reason: text::owned(reason),
            evidence: text::owned(evidence),
            followup_assignment_id: text::owned(followup),
            created_at: now.to_owned(),
        },
    );
}

/// What came of a decision.
pub enum Judged {
    /// Nothing was written.
    Nothing,
    IllegalMove,
    IdTaken,
    /// The request id of the continuation belongs to another assignment.
    FollowupTaken { client_request_id: Seq<char>, assignment_id: Seq<char> },
    /// The assignment that was decided, and its continuation.
    Done { updated: AssignmentView, followup: Option<AssignmentView> },
}

/// What recording a decision comes to, and the store afterwards.
pub open spec fn recording(
    s: StoreView,
    now: Seq<char>,
    review_id: Seq<char>,
    id: Seq<char>,
    decision: Seq<char>,
    actor: Seq<char>,
    source: Seq<char>,
    reason: Option<Seq<char>>,
    evidence: Option<Seq<char>>,
    followup: Option<Seq<char>>,
) -> (Judged, StoreView) {
    let to = ruling(decision);
    let before = table::first(s.assignments, assignments::with_id(id));
    let after = table::changed(
        table::changed(s.assignments, assignments::at(id, before->0.status), put_on(to->0)),
        assignments::with_id(id),
        reviewed(decision, actor, reason, followup, now),
    );
    if to is None || before is None || !assignment_state::legal(before->0.status, to->0) {
        (Judged::Nothing, s)
    } else if table::any(s.reviews, review_id_is(review_id)) {
        (Judged::IdTaken, s)
    } else {
        (
            Judged::Done { updated: table::first(after, assignments::with_id(id))->0, followup: None },
            StoreView {
                assignments: after,
                reviews: s.reviews.push(
                    record(
                        review_id,
                        id,
                        decision,
                        before->0.status,
                        to->0,
                        actor,
                        source,
                        reason,
                        evidence,
                        followup,
                        now,
                    ),
                ),
                ..s
            },
        )
    }
}

/// Record a decision. `Ok(None)` is that nothing was written: the word is no decision, the
/// assignment does not exist, or it cannot move there from where it is.
pub fn review(
    s: &mut Store,
    now: &str,
    review_id: &str,
    id: &str,
    decision: &str,
    actor: &str,
    source: &str,
    reason: Option<&str>,
    evidence: Option<&str>,
    followup_assignment_id: Option<&str>,
) -> (res: Result<Option<Assignment>, StoreError>)
    ensures
        ({
            let (got, after) = recording(
                old(s)@,
                now@,
                review_id@,
                id@,
                decision@,
                actor@,
                source@,
                text::arg(reason),
                text::arg(evidence),
                text::arg(followup_assignment_id),
            );
            &&& final(s)@ == after
            &&& match got {
                Judged::Nothing => res == Ok::<Option<Assignment>, StoreError>(None),
                Judged::Done { updated, followup } => res is Ok && res->Ok_0 is Some && res->Ok_0->0@ == updated,
                _ => res == Err::<Option<Assignment>, StoreError>(StoreError::IdTaken),
            }
        }),
{
    let to = match decision_status(decision) {
        Some(t) => t,
        None => {
            return Ok(None);
        },
    };
    let before = match assignments::assignment(s, id) {
        Some(a) => a,
        None => {
            return Ok(None);
        },
    };
    if !assignment_state::allowed(before.status.as_str(), to) {
        return Ok(None);
    }
    if review_taken(s, review_id) {
        return Err(StoreError::IdTaken);
    }
    let from = before.status.as_str();
    let ghost was = s@.assignments;
    let ghost hit = assignments::at(id@, from@);
    table::change(
        &mut s.assignments,
        |a: &Assignment| -> (b: bool)
            ensures b == (assignments::at(id@, from@))(a@)
            { assignments::has_id(a, id) && text::same(a.status.as_str(), from) },
        |a: &Assignment| -> (x: Assignment)
            ensures x@ == (put_on(to@))(a@)
            { Assignment { status: to.to_owned(), ..a.copied() } },
        Ghost(hit),
        Ghost(put_on(to@)),
    );
    let ghost mid = s@.assignments;
    let ghost wrote = reviewed(decision@, actor@, text::arg(reason), text::arg(followup_assignment_id), now@);
    table::change(
        &mut s.assignments,
        |a: &Assignment| -> (b: bool)
            ensures b == (assignments::with_id(id@))(a@)
            { assignments::has_id(a, id) },
        |a: &Assignment| -> (x: Assignment)
            ensures x@ == (reviewed(decision@, actor@, text::arg(reason), text::arg(followup_assignment_id), now@))(a@)
            {
                Assignment {
                    review_decision: Some(decision.to_owned()),
                    reviewed_by: Some(actor.to_owned()),
                    reviewed_at: Some(now.to_owned()),
                    review_reason: text::owned(reason),
                    followup_assignment_id: text::or(followup_assignment_id, &a.followup_assignment_id),
                    updated_at: now.to_owned(),
                    ..a.copied()
                }
            },
        Ghost(assignments::with_id(id@)),
        Ghost(wrote),
    );
    write_record(
        s,
        review_id,
        id,
        decision,
        from,
        to,
        actor,
        source,
        reason,
        evidence,
        followup_assignment_id,
        now,
    );
    proof {
        table::first_of_changed(was, assignments::with_id(id@), hit, put_on(to@));
        table::first_of_changed(mid, assignments::with_id(id@), assignments::with_id(id@), wrote);
    }
    Ok(assignments::assignment(s, id))
}

// ---------------------------------------------------------------- following up

/// The continuation to create alongside a `followup` decision.
pub struct FollowupSpec<'a> {
    pub target_bot_id: &'a str,
    pub client_request_id: &'a str,
    pub text: &'a str,
    pub ownership: &'a [String],
    /// The user request the parent traces back to, so that the continuation answers the same ask.
    pub request_id: Option<&'a str>,
}

/// What a decision did.
#[derive(Debug)]
pub struct Decided {
    pub updated: Assignment,
    pub followup: Option<Assignment>,
    /// The record of this decision.
    pub review_id: String,
}

/// The request id of the continuation belongs to another assignment.
#[derive(Debug)]
pub struct FollowupIdTaken {
    pub client_request_id: String,
    pub assignment_id: String,
}

impl FollowupIdTaken {
    pub fn message(&self) -> (r: String)
        ensures
            r@ == "client_request_id "@ + self.client_request_id@ + " already belongs to another assignment ("@
                + self.assignment_id@ + ")"@,
    {
        let mut m = text::joined("client_request_id ", self.client_request_id.as_str());
        m = text::joined(m.as_str(), " already belongs to another assignment (");
        m = text::joined(m.as_str(), self.assignment_id.as_str());
        text::joined(m.as_str(), ")")
    }
}

/// Why a decision was not taken. Nothing was written.
#[derive(Debug)]
pub enum ReviewError {
    Store(StoreError),
    FollowupIdTaken(FollowupIdTaken),
}

/// An assignment that was decided.
pub open spec fn ruled(
    to: Seq<char>,
    decision: Seq<char>,
    actor: Seq<char>,
    reason: Option<Seq<char>>,
    now: Seq<char>,
) -> spec_fn(AssignmentView) -> AssignmentView {
    |a: AssignmentView|
        (AssignmentView {
            status: to,
            review_decision: Some(decision),
            reviewed_by: Some(actor),
            reviewed_at: Some(now),
            review_reason: reason,
            updated_at: now,
            ..a
        })
}

/// An assignment that points at the one that carries its work forward.
pub open spec fn pointing(followup_id: Seq<char>, now: Seq<char>) -> spec_fn(AssignmentView) -> AssignmentView {
    |a: AssignmentView| (AssignmentView { followup_assignment_id: Some(followup_id), updated_at: now, ..a })
}

/// The continuation of an assignment: the same mission, the same role in it, the same role to decide on it, and
/// a notice if its parent is one.
pub open spec fn continuation(parent: AssignmentView, id: Seq<char>, now: Seq<char>, f: FollowupSpec) -> AssignmentView {
    assignments::queued_assignment(
        id,
        now,
        text::arg(f.request_id),
        f.target_bot_id@,
        f.client_request_id@,
        f.text@,
        assignments::ownership_column(text::texts(f.ownership@)),
        Some(parent.id),
        parent.expects_review,
        parent.mission_id,
        parent.mission_role,
        parent.review_role,
    )
}

/// An assignment that is this continuation already: of the same parent, for the same bot, with the
/// same text.
pub open spec fn is_continuation(a: AssignmentView, parent: Seq<char>, f: FollowupSpec) -> bool {
    a.follow_up_of == Some(parent) && a.target_bot_id == f.target_bot_id@ && a.text == f.text@
}

/// The assignments after a decision: the decided row, and the continuation where one is asked for.
pub open spec fn decided_rows(
    rows: Seq<AssignmentView>,
    followup: Option<FollowupSpec>,
    followup_id: Seq<char>,
    id: Seq<char>,
    now: Seq<char>,
) -> Seq<AssignmentView> {
    match followup {
        None => rows,
        Some(f) => match table::first(rows, assignments::with_crid(f.client_request_id@)) {
            Some(a) => table::changed(rows, assignments::with_id(id), pointing(a.id, now)),
            None => table::changed(
                rows.push(continuation(table::first(rows, assignments::with_id(id))->0, followup_id, now, f)),
                assignments::with_id(id),
                pointing(followup_id, now),
            ),
        },
    }
}

/// The id of the continuation that a decision leads to.
pub open spec fn continued_as(
    rows: Seq<AssignmentView>,
    followup: Option<FollowupSpec>,
    followup_id: Seq<char>,
) -> Option<Seq<char>> {
    match followup {
        None => None,
        Some(f) => match table::first(rows, assignments::with_crid(f.client_request_id@)) {
            Some(a) => Some(a.id),
            None => Some(followup_id),
        },
    }
}

proof fn first_of_push<V>(rows: Seq<V>, x: V, find: spec_fn(V) -> bool)
    requires
        table::first(rows, find) is Some,
    ensures
        table::first(rows.push(x), find) == table::first(rows, find),
    decreases rows.len(),
{
    if rows.len() > 0 && !find(rows[0]) {
        assert(rows.push(x).skip(1) =~= rows.skip(1).push(x));
        first_of_push(rows.skip(1), x, find);
    }
}

proof fn continuation_is_found(
    rows: Seq<AssignmentView>,
    cont: AssignmentView,
    id: Seq<char>,
    followup_id: Seq<char>,
    now: Seq<char>,
)
    requires
        cont.id == followup_id,
        table::any(rows, assignments::with_id(id)),
        !table::any(rows, assignments::with_id(followup_id)),
    ensures
        followup_id != id,
        table::first(
            table::changed(rows.push(cont), assignments::with_id(id), pointing(followup_id, now)),
            assignments::with_id(followup_id),
        ) == Some(cont),
{
    let hit = assignments::with_id(followup_id);
    let more = rows.push(cont);
    let k = choose|k: int| 0 <= k < rows.len() && (assignments::with_id(id))(#[trigger] rows[k]);
    assert(!hit(rows[k]));
    assert forall|j: int| 0 <= j < rows.len() implies !hit(#[trigger] more[j]) by {
        assert(!hit(rows[j]));
    }
    table::first_at(more, hit, rows.len() as int);
    table::first_of_changed(more, hit, assignments::with_id(id), pointing(followup_id, now));
}

fn point_at(s: &mut Store, now: &str, id: &str, followup_id: &str)
    ensures
        final(s)@ == (StoreView {
            assignments: table::changed(old(s)@.assignments, assignments::with_id(id@), pointing(followup_id@, now@)),
            ..old(s)@
        }),
{
    table::change(
        &mut s.assignments,
        |a: &Assignment| -> (b: bool)
            ensures b == (assignments::with_id(id@))(a@)
            { assignments::has_id(a, id) },
        |a: &Assignment| -> (x: Assignment)
            ensures x@ == (pointing(followup_id@, now@))(a@)
            {
                Assignment {
                    followup_assignment_id: Some(followup_id.to_owned()),
                    updated_at: now.to_owned(),
                    ..a.copied()
                }
            },
        Ghost(assignments::with_id(id@)),
        Ghost(pointing(followup_id@, now@)),
    );
}

/// The assignments after one was pointed at the one that carries its work forward.
pub open spec fn pointed(rows: Seq<AssignmentView>, id: Seq<char>, followup_id: Seq<char>, now: Seq<char>) -> Seq<AssignmentView> {
    table::changed(rows, assignments::with_id(id), pointing(followup_id, now))
}

/// Point a superseded assignment at the one that carries its work forward.
pub fn link_followup(s: &mut Store, now: &str, id: &str, followup_id: &str)
    ensures
        final(s)@ == (StoreView { assignments: pointed(old(s)@.assignments, id@, followup_id@, now@), ..old(s)@ }),
{
    point_at(s, now, id, followup_id)
}

/// The status may become what a decision makes it: the move is legal, or there is none to make.
pub open spec fn may_rule(from: Seq<char>, to: Seq<char>) -> bool {
    from == to || assignment_state::legal(from, to)
}

/// What a decision with its continuation comes to, and the store afterwards.
pub open spec fn judging(
    s: StoreView,
    now: Seq<char>,
    review_id: Seq<char>,
    followup_id: Seq<char>,
    id: Seq<char>,
    expect_status: Seq<char>,
    decision: Seq<char>,
    actor: Seq<char>,
    source: Seq<char>,
    reason: Option<Seq<char>>,
    evidence: Option<Seq<char>>,
    followup: Option<FollowupSpec>,
) -> (Judged, StoreView) {
    let to = ruling(decision);
    let hit = assignments::at(id, expect_status);
    let rows = table::changed(s.assignments, hit, ruled(to->0, decision, actor, reason, now));
    let holder = match followup {
        Some(f) => table::first(rows, assignments::with_crid(f.client_request_id@)),
        None => None,
    };
    let after = decided_rows(rows, followup, followup_id, id, now);
    let next = continued_as(rows, followup, followup_id);
    if to is None || !table::any(s.assignments, hit) {
        (Judged::Nothing, s)
    } else if !may_rule(expect_status, to->0) {
        (Judged::IllegalMove, s)
    } else if holder is Some && !is_continuation(holder->0, id, followup->0) {
        (
            Judged::FollowupTaken {
                client_request_id: followup->0.client_request_id@,
                assignment_id: holder->0.id,
            },
            s,
        )
    } else if followup is Some && holder is None && table::any(rows, assignments::with_id(followup_id)) {
        (Judged::IdTaken, s)
    } else if table::any(s.reviews, review_id_is(review_id)) {
        (Judged::IdTaken, s)
    } else {
        (
            Judged::Done {
                updated: table::first(after, assignments::with_id(id))->0,
                followup: match next {
                    Some(n) => table::first(after, assignments::with_id(n)),
                    None => None,
                },
            },
            StoreView {
                assignments: after,
                reviews: s.reviews.push(
                    record(
                        review_id,
                        id,
                        decision,
                        expect_status,
                        to->0,
                        actor,
                        source,
                        reason,
                        evidence,
                        next,
                        now,
                    ),
                ),
                ..s
            },
        )
    }
}

/// Decide an assignment and, for a follow-up, create its continuation, in one write that is guarded
/// on the status the decision was taken against.
///
/// `Ok(None)` is that nothing was written: the word is no decision, or somebody else decided first.
pub fn review_with_followup(
    s: &mut Store,
    now: &str,
    review_id: &str,
    followup_id: &str,
    id: &str,
    expect_status: &str,
    decision: &str,
    actor: &str,
    source: &str,
    reason: Option<&str>,
    evidence: Option<&str>,
    followup: Option<FollowupSpec<'_>>,
) -> (res: Result<Option<Decided>, ReviewError>)
    ensures
        ({
            let (got, after) = judging(
                old(s)@,
                now@,
                review_id@,
                followup_id@,
                id@,
                expect_status@,
                decision@,
                actor@,
                source@,
                text::arg(reason),
                text::arg(evidence),
                followup,
            );
            &&& final(s)@ == after
            &&& match got {
                Judged::Nothing => res is Ok && res->Ok_0 is None,
                Judged::IllegalMove => res matches Err(ReviewError::Store(e)) && e == StoreError::IllegalMove,
                Judged::IdTaken => res matches Err(ReviewError::Store(e)) && e == StoreError::IdTaken,
                Judged::FollowupTaken { client_request_id, assignment_id } => res matches Err(
                    ReviewError::FollowupIdTaken(e),
                ) && e.client_request_id@ == client_request_id && e.assignment_id@ == assignment_id,
                Judged::Done { updated, followup: next } => {
                    &&& res is Ok && res->Ok_0 is Some
                    &&& res->Ok_0->0.updated@ == updated
                    &&& table::opt_view(res->Ok_0->0.followup) == next
                    &&& res->Ok_0->0.review_id@ == review_id@
                },
            }
        }),
        followup is Some && final(s)@.assignments.len() > old(s)@.assignments.len() ==> (res matches Ok(Some(d))
            && d.followup is Some && assignments::owned_parts(d.followup->0@) == text::texts(followup->0.ownership@)),
{
    let to = match decision_status(decision) {
        Some(t) => t,
        None => {
            return Ok(None);
        },
    };
    let ghost was = s@.assignments;
    let ghost hit = assignments::at(id@, expect_status@);
    let ghost rule = ruled(to@, decision@, actor@, text::arg(reason), now@);
    let ghost rows = table::changed(was, hit, rule);
    proof {
        table::first_is_a_hit(was, hit);
    }
    let found = table::find(&s.assignments, |a: &Assignment| -> (b: bool)
        ensures b == (assignments::at(id@, expect_status@))(a@)
        { assignments::has_id(a, id) && text::same(a.status.as_str(), expect_status) }, Ghost(hit)).is_some();
    if !found {
        return Ok(None);
    }
    if !text::same(expect_status, to) && !assignment_state::allowed(expect_status, to) {
        return Err(ReviewError::Store(StoreError::IllegalMove));
    }
    proof {
        let i = choose|i: int| 0 <= i < was.len() && hit(#[trigger] was[i]);
        assert((assignments::with_id(id@))(was[i]));
        table::first_is_a_hit(was, assignments::with_id(id@));
        table::first_of_changed(was, assignments::with_id(id@), hit, rule);
        table::first_of_changed(was, assignments::with_id(followup_id@), hit, rule);
        table::first_is_a_hit(rows, assignments::with_id(followup_id@));
    }
    let mut adopted: Option<String> = None;
    if let Some(f) = &followup {
        proof {
            table::first_of_changed(was, assignments::with_crid(f.client_request_id@), hit, rule);
        }
        match assignments::assignment_by_crid(s, f.client_request_id) {
            Some(a) => {
                if !text::is_text(&a.follow_up_of, id) || !text::same(a.target_bot_id.as_str(), f.target_bot_id)
                    || !text::same(a.text.as_str(), f.text) {
                    return Err(
                        ReviewError::FollowupIdTaken(
                            FollowupIdTaken {
                                client_request_id: f.client_request_id.to_owned(),
                                assignment_id: a.id.clone(),
                            },
                        ),
                    );
                }
                adopted = Some(a.id.clone());
            },
            None => {
                if assignments::assignment(s, followup_id).is_some() {
                    return Err(ReviewError::Store(StoreError::IdTaken));
                }
            },
        }
    }
    if review_taken(s, review_id) {
        return Err(ReviewError::Store(StoreError::IdTaken));
    }
    table::change(
        &mut s.assignments,
        |a: &Assignment| -> (b: bool)
            ensures b == (assignments::at(id@, expect_status@))(a@)
            { assignments::has_id(a, id) && text::same(a.status.as_str(), expect_status) },
        |a: &Assignment| -> (x: Assignment)
            ensures x@ == (ruled(to@, decision@, actor@, text::arg(reason), now@))(a@)
            {
                Assignment {
                    status: to.to_owned(),
                    review_decision: Some(decision.to_owned()),
                    reviewed_by: Some(actor.to_owned()),
                    reviewed_at: Some(now.to_owned()),
                    review_reason: text::owned(reason),
                    updated_at: now.to_owned(),
                    ..a.copied()
                }
            },
        Ghost(hit),
        Ghost(rule),
    );
    let mut next: Option<String> = None;
    if let Some(f) = &followup {
        match adopted {
            Some(a) => {
                point_at(s, now, id, a.as_str());
                proof {
                    table::first_of_changed(
                        rows,
                        assignments::with_id(id@),
                        assignments::with_id(id@),
                        pointing(a@, now@),
                    );
                }
                next = Some(a);
            },
            None => {
                let parent = match assignments::assignment(s, id) {
                    Some(a) => a,
                    None => {
                        assert(false);
                        return Ok(None);
                    },
                };
                proof {
                    table::first_is_a_hit(rows, assignments::with_id(id@));
                }
                let row = assignments::queued(
                    followup_id,
                    now,
                    f.request_id,
                    f.target_bot_id,
                    f.client_request_id,
                    f.text,
                    assignments::ownership_text(f.ownership),
                    Some(id),
                    parent.expects_review,
                    text::borrowed(&parent.mission_id),
                    text::borrowed(&parent.mission_role),
                    text::borrowed(&parent.review_role),
                );
                let ghost cont = row@;
                assert(assignments::owned_parts(cont) =~= text::texts(f.ownership@));
                s.assignments.push(row);
                assert(s@.assignments =~= rows.push(cont));
                point_at(s, now, id, followup_id);
                proof {
                    continuation_is_found(rows, cont, id@, followup_id@, now@);
                    first_of_push(rows, cont, assignments::with_id(id@));
                    table::first_of_changed(
                        rows.push(cont),
                        assignments::with_id(id@),
                        assignments::with_id(id@),
                        pointing(followup_id@, now@),
                    );
                }
                next = Some(followup_id.to_owned());
            },
        }
    }
    write_record(
        s,
        review_id,
        id,
        decision,
        expect_status,
        to,
        actor,
        source,
        reason,
        evidence,
        text::borrowed(&next),
        now,
    );
    let updated = match assignments::assignment(s, id) {
        Some(a) => a,
        None => {
            assert(false);
            return Ok(None);
        },
    };
    let continued = match &next {
        Some(n) => assignments::assignment(s, n.as_str()),
        None => None,
    };
    Ok(Some(Decided { updated, followup: continued, review_id: review_id.to_owned() }))
}

// ---------------------------------------------------------------- records

/// The record with this id, while its evidence is still what it is expected to be.
pub open spec fn evidence_is(id: Seq<char>, expected: Option<Seq<char>>) -> spec_fn(ReviewView) -> bool {
    |r: ReviewView| r.id == id && r.evidence == expected
}

/// A record with other evidence.
pub open spec fn with_evidence(evidence: Option<Seq<char>>) -> spec_fn(ReviewView) -> ReviewView {
    |r: ReviewView| (ReviewView { evidence, ..r })
}

/// Whether the evidence of a record is rewritten, and the records then.
pub open spec fn amended(rows: Seq<ReviewView>, id: Seq<char>, expected: Option<Seq<char>>, evidence: Option<Seq<char>>) -> (
    bool,
    Seq<ReviewView>,
) {
    (table::any(rows, evidence_is(id, expected)), table::changed(rows, evidence_is(id, expected), with_evidence(evidence)))
}

/// Rewrite the evidence of a record that was just written, only while it still says what was written
/// then: no other write is overwritten.
pub fn amend_review_evidence(s: &mut Store, review_id: &str, expected: Option<&str>, evidence: Option<&str>) -> (wrote: bool)
    ensures
        (wrote, final(s)@.reviews) == amended(old(s)@.reviews, review_id@, text::arg(expected), text::arg(evidence)),
        final(s)@ == (StoreView { reviews: final(s)@.reviews, ..old(s)@ }),
{
    let ghost hit = evidence_is(review_id@, text::arg(expected));
    let n = table::change(
        &mut s.reviews,
        |r: &Review| -> (b: bool)
            ensures b == (evidence_is(review_id@, text::arg(expected)))(r@)
            { text::same(r.id.as_str(), review_id) && text::same_opt(text::borrowed(&r.evidence), expected) },
        |r: &Review| -> (x: Review)
            ensures x@ == (with_evidence(text::arg(evidence)))(r@)
            { Review { evidence: text::owned(evidence), ..r.copied() } },
        Ghost(hit),
        Ghost(with_evidence(text::arg(evidence))),
    );
    proof {
        table::any_is_counted(old(s)@.reviews, hit);
    }
    n > 0
}

/// The decisions on one assignment.
pub open spec fn about(assignment_id: Seq<char>) -> spec_fn(ReviewView) -> bool {
    |r: ReviewView| r.assignment_id == assignment_id
}

/// One decision was taken before another.
pub open spec fn taken_earlier() -> spec_fn(ReviewView, ReviewView) -> bool {
    |a: ReviewView, b: ReviewView| text::text_before(a.created_at, b.created_at)
}

/// The decisions taken on an assignment, oldest first.
pub open spec fn decisions_on(rows: Seq<ReviewView>, assignment_id: Seq<char>) -> Seq<ReviewView> {
    table::ordered(rows.filter(about(assignment_id)), taken_earlier())
}

/// Every decision taken on one assignment, oldest first.
pub fn reviews(s: &Store, assignment_id: &str) -> (r: Vec<Review>)
    ensures
        table::views(r@) == decisions_on(s@.reviews, assignment_id@),
{
    let rows = table::select(&s.reviews, |a: &Review| -> (b: bool)
        ensures b == (about(assignment_id@))(a@)
        { text::same(a.assignment_id.as_str(), assignment_id) }, Ghost(about(assignment_id@)));
    table::arrange(rows, |a: &Review, b: &Review| -> (c: bool)
        ensures c == (taken_earlier())(a@, b@)
        { text::precedes(a.created_at.as_str(), b.created_at.as_str()) }, Ghost(taken_earlier()))
}

// ---------------------------------------------------------------- laws

/// Of two decisions against the same status only the first is taken: once the assignment has moved,
/// nothing is left for the second to find. A block of what is blocked already moves nothing, and is
/// left out.
pub proof fn the_second_decider_finds_nothing(
    rows: Seq<AssignmentView>,
    id: Seq<char>,
    expect_status: Seq<char>,
    decision: Seq<char>,
    actor: Seq<char>,
    reason: Option<Seq<char>>,
    followup: Option<FollowupSpec>,
    followup_id: Seq<char>,
    now: Seq<char>,
)
    requires
        ruling(decision) is Some,
        ruling(decision)->0 != expect_status,
        followup_id != id,
    ensures
        ({
            let moved = table::changed(
                rows,
                assignments::at(id, expect_status),
                ruled(ruling(decision)->0, decision, actor, reason, now),
            );
            !table::any(decided_rows(moved, followup, followup_id, id, now), assignments::at(id, expect_status))
        }),
{
    let hit = assignments::at(id, expect_status);
    let rule = ruled(ruling(decision)->0, decision, actor, reason, now);
    let moved = table::changed(rows, hit, rule);
    assert forall|i: int| 0 <= i < moved.len() implies !hit(#[trigger] moved[i]) by {
        assert(moved[i] == if hit(rows[i]) {
            rule(rows[i])
        } else {
            rows[i]
        });
    }
    let after = decided_rows(moved, followup, followup_id, id, now);
    assert forall|i: int| 0 <= i < after.len() implies !hit(#[trigger] after[i]) by {
        if i < moved.len() {
            assert(!hit(moved[i]));
        }
    }
}

/// A decision adds at most one assignment: the continuation it was asked for, and only where that
/// continuation is not there yet.
pub proof fn a_decision_creates_at_most_one_continuation(
    rows: Seq<AssignmentView>,
    followup: Option<FollowupSpec>,
    followup_id: Seq<char>,
    id: Seq<char>,
    now: Seq<char>,
)
    ensures
        decided_rows(rows, followup, followup_id, id, now).len() == rows.len() + (if followup is Some
            && table::first(rows, assignments::with_crid(followup->0.client_request_id@)) is None {
            1int
        } else {
            0int
        }),
{
}

/// A continuation stays with its parent's mission, roles and kind, and starts queued.
pub proof fn a_continuation_keeps_its_place(parent: AssignmentView, id: Seq<char>, now: Seq<char>, f: FollowupSpec)
    ensures
        ({
            let c = continuation(parent, id, now, f);
            &&& c.follow_up_of == Some(parent.id)
            &&& c.mission_id == parent.mission_id
            &&& c.mission_role == parent.mission_role
            &&& c.review_role == parent.review_role
            &&& c.expects_review == parent.expects_review
            &&& assignment_state::in_flight(c.status)
            &&& is_continuation(c, parent.id, f)
        }),
{
}

/// A decided assignment takes no other decision; the same one again leaves its status where it is.
pub proof fn a_decision_is_not_taken_twice(status: Seq<char>, decision: Seq<char>)
    requires
        assignment_state::decided(status),
        ruling(decision) is Some,
    ensures
        !assignment_state::legal(status, ruling(decision)->0),
        may_rule(status, ruling(decision)->0) == (status == ruling(decision)->0),
{
    assignment_state::a_decision_is_final(status, ruling(decision)->0);
}

/// Every decision can be taken on everything that is open.
pub proof fn open_work_takes_every_decision(status: Seq<char>, decision: Seq<char>)
    requires
        assignment_state::open_state(status),
        ruling(decision) is Some,
    ensures
        assignment_state::legal(status, ruling(decision)->0),
{
}

/// Each word of a decision leads to one status, and no other word is a decision.
pub proof fn each_decision_has_its_status(decision: Seq<char>)
    ensures
        ruling("accept"@) == Some("completed"@),
        ruling("fail"@) == Some("failed"@),
        ruling("cancel"@) == Some("cancelled"@),
        ruling("block"@) == Some("blocked"@),
        ruling("followup"@) == Some("superseded"@),
        decision != "accept"@ && decision != "fail"@ && decision != "cancel"@ && decision != "block"@ && decision
            != "followup"@ ==> ruling(decision) is None,
{
    reveal_strlit("accept");
    reveal_strlit("fail");
    reveal_strlit("cancel");
    reveal_strlit("block");
    reveal_strlit("followup");
    assert("accept"@.len() == 6 && "fail"@.len() == 4 && "cancel"@.len() == 6 && "block"@.len() == 5 && "followup"@.len() == 8);
    assert("accept"@[0] == 'a' && "cancel"@[0] == 'c');
}

/// A decision is taken exactly where it is one, the assignment is where it was expected, the move from
/// there is legal, and the ids are free. Otherwise nothing is written.
pub proof fn a_decision_that_can_be_taken_is_taken(
    s: StoreView,
    now: Seq<char>,
    review_id: Seq<char>,
    followup_id: Seq<char>,
    id: Seq<char>,
    expect_status: Seq<char>,
    decision: Seq<char>,
    actor: Seq<char>,
    source: Seq<char>,
    reason: Option<Seq<char>>,
    evidence: Option<Seq<char>>,
)
    ensures
        ({
            let (got, after) = judging(
                s,
                now,
                review_id,
                followup_id,
                id,
                expect_status,
                decision,
                actor,
                source,
                reason,
                evidence,
                None,
            );
            let there = exists|i: int|
                0 <= i < s.assignments.len() && (#[trigger] s.assignments[i]).id == id && s.assignments[i].status
                    == expect_status;
            let recorded = exists|k: int| 0 <= k < s.reviews.len() && (#[trigger] s.reviews[k]).id == review_id;
            let to = ruling(decision);
            &&& !(got is Done) ==> after == s
            &&& got is Nothing <==> to is None || !there
            &&& got is IllegalMove <==> to is Some && there && expect_status != to->0 && !assignment_state::legal(
                expect_status,
                to->0,
            )
            &&& got is IdTaken <==> to is Some && there && (expect_status == to->0 || assignment_state::legal(
                expect_status,
                to->0,
            )) && recorded
            &&& !(got is FollowupTaken)
        }),
{
    let hit = assignments::at(id, expect_status);
    if table::any(s.assignments, hit) {
        let i = choose|i: int| 0 <= i < s.assignments.len() && hit(#[trigger] s.assignments[i]);
        assert(s.assignments[i].id == id && s.assignments[i].status == expect_status);
    } else {
        assert forall|i: int| 0 <= i < s.assignments.len() implies !((#[trigger] s.assignments[i]).id == id
            && s.assignments[i].status == expect_status) by {
            assert(!hit(s.assignments[i]));
        }
    }
    let taken = review_id_is(review_id);
    if table::any(s.reviews, taken) {
        let k = choose|k: int| 0 <= k < s.reviews.len() && taken(#[trigger] s.reviews[k]);
        assert(s.reviews[k].id == review_id);
    } else {
        assert forall|k: int| 0 <= k < s.reviews.len() implies (#[trigger] s.reviews[k]).id != review_id by {
            assert(!taken(s.reviews[k]));
        }
    }
}

/// A decision is on record word for word: on the assignment that was where it was expected, and in a
/// record of its own that is the last one. Every other assignment stays as it was, and so does everything
/// else in the store.
pub proof fn a_decision_is_on_record(
    s: StoreView,
    now: Seq<char>,
    review_id: Seq<char>,
    followup_id: Seq<char>,
    id: Seq<char>,
    expect_status: Seq<char>,
    decision: Seq<char>,
    actor: Seq<char>,
    source: Seq<char>,
    reason: Option<Seq<char>>,
    evidence: Option<Seq<char>>,
    followup: Option<FollowupSpec>,
    i: int,
)
    requires
        0 <= i < s.assignments.len(),
    ensures
        ({
            let (got, after) = judging(
                s,
                now,
                review_id,
                followup_id,
                id,
                expect_status,
                decision,
                actor,
                source,
                reason,
                evidence,
                followup,
            );
            let was = s.assignments[i];
            let is = after.assignments[i];
            &&& !(got is Done) ==> after == s
            &&& got matches Judged::Done { updated, followup: next } ==> {
                &&& after == (StoreView { assignments: after.assignments, reviews: after.reviews, ..s })
                &&& after.reviews == s.reviews.push(
                    ReviewView {
                        id: review_id,
                        assignment_id: id,
                        decision,
                        from_status: expect_status,
                        to_status: ruling(decision)->0,
                        actor,
                        source,
                        reason,
                        evidence,
                        followup_assignment_id: match next {
                            Some(n) => Some(n.id),
                            None => None,
                        },
                        created_at: now,
                    },
                )
                &&& after.assignments.contains(updated) && updated.id == id
                &&& next is Some <==> followup is Some
                &&& followup is None ==> after.assignments.len() == s.assignments.len()
                &&& was.id != id ==> is == was
                &&& was.id == id && was.status == expect_status ==> is == (AssignmentView {
                    status: ruling(decision)->0,
                    review_decision: Some(decision),
                    reviewed_by: Some(actor),
                    reviewed_at: Some(now),
                    review_reason: reason,
                    updated_at: now,
                    followup_assignment_id: match next {
                        Some(n) => Some(n.id),
                        None => was.followup_assignment_id,
                    },
                    ..was
                })
            }
        }),
{
    let hit = assignments::at(id, expect_status);
    let rule = ruled(ruling(decision)->0, decision, actor, reason, now);
    let rows = table::changed(s.assignments, hit, rule);
    let after = decided_rows(rows, followup, followup_id, id, now);
    if table::any(s.assignments, hit) {
        let k = choose|k: int| 0 <= k < s.assignments.len() && hit(#[trigger] s.assignments[k]);
        assert((assignments::with_id(id))(rows[k]));
        assert((assignments::with_id(id))(after[k]));
        table::first_is_a_hit(after, assignments::with_id(id));
        match followup {
            Some(f) => {
                let find = assignments::with_crid(f.client_request_id@);
                table::first_is_a_hit(rows, find);
                match table::first(rows, find) {
                    Some(a) => {
                        let m = choose|m: int| 0 <= m < rows.len() && rows[m] == a;
                        assert((assignments::with_id(a.id))(after[m]));
                        table::first_is_a_hit(after, assignments::with_id(a.id));
                    },
                    None => {
                        table::first_is_a_hit(rows, assignments::with_id(id));
                        let cont = continuation(table::first(rows, assignments::with_id(id))->0, followup_id, now, f);
                        if !table::any(rows, assignments::with_id(followup_id)) {
                            continuation_is_found(rows, cont, id, followup_id, now);
                        }
                    },
                }
            },
            None => {},
        }
    }
}

/// The continuation of a follow-up is handed the work that it was asked for: to this bot, under this
/// request id, in these words, for the same user request, with exactly these files or modules to own. It
/// waits to be sent, is tried never, points back at its parent, and keeps the mission, the roles and the
/// kind of its parent. It is the only new assignment, and the last.
///
/// That a list of files is read back as it was written is what the column rests on.
pub proof fn a_continuation_is_the_work_that_was_asked_for(
    s: StoreView,
    now: Seq<char>,
    review_id: Seq<char>,
    followup_id: Seq<char>,
    id: Seq<char>,
    expect_status: Seq<char>,
    decision: Seq<char>,
    actor: Seq<char>,
    source: Seq<char>,
    reason: Option<Seq<char>>,
    evidence: Option<Seq<char>>,
    f: FollowupSpec,
    parent: AssignmentView,
)
    requires
        table::first(s.assignments, assignments::with_id(id)) == Some(parent),
        forall|i: int|
            0 <= i < s.assignments.len() && (#[trigger] s.assignments[i]).supervisor_id == "AGM"@
                ==> s.assignments[i].client_request_id != f.client_request_id@,
        f.ownership@.len() > 0 ==> crate::json::json_strings(crate::json::json_list(text::texts(f.ownership@))) == Some(
            text::texts(f.ownership@),
        ),
    ensures
        ({
            let (got, after) = judging(
                s,
                now,
                review_id,
                followup_id,
                id,
                expect_status,
                decision,
                actor,
                source,
                reason,
                evidence,
                Some(f),
            );
            got matches Judged::Done { updated, followup } ==> {
                let c = followup->0;
                &&& followup is Some
                &&& after.assignments.len() == s.assignments.len() + 1
                &&& after.assignments.last() == c
                &&& updated.followup_assignment_id == Some(followup_id)
                &&& c.id == followup_id
                &&& c.supervisor_id == "AGM"@
                &&& c.target_bot_id == f.target_bot_id@
                &&& c.client_request_id == f.client_request_id@
                &&& c.text == f.text@
                &&& c.request_id == text::arg(f.request_id)
                &&& assignments::owned_parts(c) == text::texts(f.ownership@)
                &&& c.ownership_json is None <==> f.ownership@.len() == 0
                &&& c.follow_up_of == Some(parent.id)
                &&& c.status == "queued"@
                &&& c.attempts == 0 && c.quota_retries == 0 && c.legacy_closed == 0
                &&& c.turn_id is None && c.delivery is None && c.result is None && c.error is None && c.completed_at is None
                &&& c.review_decision is None && c.reviewed_by is None && c.reviewed_at is None && c.next_attempt_at is None
                    && c.resume_at is None && c.followup_assignment_id is None
                &&& c.created_at == now && c.updated_at == now
                &&& c.mission_id == parent.mission_id
                &&& c.mission_role == parent.mission_role
                &&& c.review_role == parent.review_role
                &&& c.expects_review == parent.expects_review
            }
        }),
{
    let hit = assignments::at(id, expect_status);
    let rule = ruled(ruling(decision)->0, decision, actor, reason, now);
    let rows = table::changed(s.assignments, hit, rule);
    let find = assignments::with_crid(f.client_request_id@);
    assert forall|i: int| 0 <= i < rows.len() implies !find(#[trigger] rows[i]) by {
        assert(rows[i].supervisor_id == s.assignments[i].supervisor_id);
        assert(rows[i].client_request_id == s.assignments[i].client_request_id);
    }
    table::first_of_none(rows, find);
    table::first_of_changed(s.assignments, assignments::with_id(id), hit, rule);
    table::first_is_a_hit(s.assignments, assignments::with_id(id));
    let base = table::first(rows, assignments::with_id(id))->0;
    let cont = continuation(base, followup_id, now, f);
    table::first_is_a_hit(rows, assignments::with_id(id));
    if !table::any(rows, assignments::with_id(followup_id)) {
        continuation_is_found(rows, cont, id, followup_id, now);
        first_of_push(rows, cont, assignments::with_id(id));
        table::first_of_changed(rows.push(cont), assignments::with_id(id), assignments::with_id(id), pointing(followup_id, now));
    }
    assert(f.ownership@.len() == 0 ==> text::texts(f.ownership@) =~= seq![]);
}

/// A request id that another assignment holds is not taken for a continuation, unless that assignment is
/// this very continuation: of the same parent, for the same bot, in the same words. Then it is pointed at,
/// and no second one is made.
pub proof fn a_continuation_is_not_made_twice(
    s: StoreView,
    now: Seq<char>,
    review_id: Seq<char>,
    followup_id: Seq<char>,
    id: Seq<char>,
    expect_status: Seq<char>,
    decision: Seq<char>,
    actor: Seq<char>,
    source: Seq<char>,
    reason: Option<Seq<char>>,
    evidence: Option<Seq<char>>,
    f: FollowupSpec,
    there: AssignmentView,
)
    requires
        table::first(s.assignments, assignments::with_crid(f.client_request_id@)) == Some(there),
    ensures
        ({
            let (got, after) = judging(
                s,
                now,
                review_id,
                followup_id,
                id,
                expect_status,
                decision,
                actor,
                source,
                reason,
                evidence,
                Some(f),
            );
            let same = there.follow_up_of == Some(id) && there.target_bot_id == f.target_bot_id@ && there.text == f.text@;
            &&& after.assignments.len() == s.assignments.len()
            &&& !same ==> !(got is Done) && (got matches Judged::FollowupTaken { client_request_id, assignment_id }
                ==> client_request_id == f.client_request_id@ && assignment_id == there.id)
            &&& same ==> !(got is FollowupTaken)
            &&& got matches Judged::Done { updated, followup } ==> updated.followup_assignment_id == Some(there.id)
                && followup is Some && followup->0.id == there.id
        }),
{
    let hit = assignments::at(id, expect_status);
    let rule = ruled(ruling(decision)->0, decision, actor, reason, now);
    let rows = table::changed(s.assignments, hit, rule);
    let find = assignments::with_crid(f.client_request_id@);
    table::first_of_changed(s.assignments, find, hit, rule);
    let a = table::first(rows, find)->0;
    let after = table::changed(rows, assignments::with_id(id), pointing(a.id, now));
    table::first_is_a_hit(rows, find);
    let m = choose|m: int| 0 <= m < rows.len() && rows[m] == a;
    assert((assignments::with_id(a.id))(after[m]));
    table::first_is_a_hit(after, assignments::with_id(a.id));
    if table::any(s.assignments, hit) {
        let k = choose|k: int| 0 <= k < s.assignments.len() && hit(#[trigger] s.assignments[k]);
        assert((assignments::with_id(id))(rows[k]));
        table::first_is_a_hit(rows, assignments::with_id(id));
        table::first_of_changed(rows, assignments::with_id(id), assignments::with_id(id), pointing(a.id, now));
    }
}

/// A decision that is recorded on an assignment wherever it is: taken exactly where the move from its
/// present status is legal, and then on record word for word.
pub proof fn a_recorded_decision_is_on_record(
    s: StoreView,
    now: Seq<char>,
    review_id: Seq<char>,
    id: Seq<char>,
    decision: Seq<char>,
    actor: Seq<char>,
    source: Seq<char>,
    reason: Option<Seq<char>>,
    evidence: Option<Seq<char>>,
    followup: Option<Seq<char>>,
    before: AssignmentView,
    i: int,
)
    requires
        table::first(s.assignments, assignments::with_id(id)) == Some(before),
        0 <= i < s.assignments.len(),
    ensures
        ({
            let (got, after) = recording(s, now, review_id, id, decision, actor, source, reason, evidence, followup);
            let was = s.assignments[i];
            let is = after.assignments[i];
            let to = ruling(decision);
            &&& !(got is Done) ==> after == s
            &&& got is Nothing <==> to is None || !assignment_state::legal(before.status, to->0)
            &&& got is Done || got is Nothing || got is IdTaken
            &&& got matches Judged::Done { updated, .. } ==> {
                &&& updated.id == id && after.assignments.contains(updated)
                &&& after == (StoreView { assignments: after.assignments, reviews: after.reviews, ..s })
                &&& after.assignments.len() == s.assignments.len()
                &&& after.reviews == s.reviews.push(
                    ReviewView {
                        id: review_id,
                        assignment_id: id,
                        decision,
                        from_status: before.status,
                        to_status: to->0,
                        actor,
                        source,
                        reason,
                        evidence,
                        followup_assignment_id: followup,
                        created_at: now,
                    },
                )
                &&& was.id != id ==> is == was
                &&& was.id == id && was.status == before.status ==> is == (AssignmentView {
                    status: to->0,
                    review_decision: Some(decision),
                    reviewed_by: Some(actor),
                    reviewed_at: Some(now),
                    review_reason: reason,
                    followup_assignment_id: match followup {
                        Some(n) => Some(n),
                        None => was.followup_assignment_id,
                    },
                    updated_at: now,
                    ..was
                })
            }
        }),
{
    let after = recording(s, now, review_id, id, decision, actor, source, reason, evidence, followup).1.assignments;
    table::first_is_a_hit(s.assignments, assignments::with_id(id));
    let k = choose|k: int| 0 <= k < s.assignments.len() && s.assignments[k] == before;
    let mid = table::changed(s.assignments, assignments::at(id, before.status), put_on(ruling(decision)->0));
    let done = table::changed(mid, assignments::with_id(id), reviewed(decision, actor, reason, followup, now));
    assert((assignments::with_id(id))(done[k]));
    table::first_is_a_hit(done, assignments::with_id(id));
}

/// The decisions on an assignment are listed whole, in the order they were taken.
pub proof fn an_assignment_has_all_its_decisions(
    rows: Seq<ReviewView>,
    assignment_id: Seq<char>,
    x: ReviewView,
    i: int,
    j: int,
)
    ensures
        ({
            let list = decisions_on(rows, assignment_id);
            let asked = x.assignment_id == assignment_id;
            &&& list.contains(x) <==> rows.contains(x) && asked
            &&& 0 <= i < j < list.len() ==> !text::text_before(list[j].created_at, list[i].created_at)
        }),
{
    table::ranked_by_text(taken_earlier(), |v: ReviewView| v.created_at, true);
    table::listing(rows, about(assignment_id), taken_earlier(), x, i, j);
}

/// Evidence is rewritten on the record that is named, only while it still says what it is expected to say;
/// every other record stays as it is, and it is known whether anything was written.
pub proof fn evidence_is_amended_where_it_is_as_expected(
    rows: Seq<ReviewView>,
    id: Seq<char>,
    expected: Option<Seq<char>>,
    evidence: Option<Seq<char>>,
    k: int,
)
    requires
        0 <= k < rows.len(),
    ensures
        ({
            let (wrote, after) = amended(rows, id, expected, evidence);
            &&& after.len() == rows.len()
            &&& rows[k].id == id && rows[k].evidence == expected ==> wrote && after[k] == (ReviewView { evidence, ..rows[k] })
            &&& rows[k].id != id || rows[k].evidence != expected ==> after[k] == rows[k]
            &&& !wrote ==> after == rows
        }),
{
    let hit = evidence_is(id, expected);
    let (wrote, after) = amended(rows, id, expected, evidence);
    if hit(rows[k]) {
        assert(wrote);
    }
    if !wrote {
        assert forall|i: int| 0 <= i < rows.len() implies after[i] == rows[i] by {
            assert(!hit(rows[i]));
        }
        assert(after =~= rows);
    }
}

/// A superseded assignment points at what carries its work forward; nothing else about it changes but when
/// it was last touched, and nothing about any other.
pub proof fn superseded_work_points_at_its_successor(
    rows: Seq<AssignmentView>,
    id: Seq<char>,
    followup_id: Seq<char>,
    now: Seq<char>,
    k: int,
)
    requires
        0 <= k < rows.len(),
    ensures
        pointed(rows, id, followup_id, now).len() == rows.len(),
        rows[k].id == id ==> pointed(rows, id, followup_id, now)[k] == (AssignmentView {
            followup_assignment_id: Some(followup_id),
            updated_at: now,
            ..rows[k]
        }),
        rows[k].id != id ==> pointed(rows, id, followup_id, now)[k] == rows[k],
{
}

} // verus!
