//! Assignments: written down before anything is sent, moved by the daemon while they are in flight,
//! and parked for a decision when their turn ends.
use crate::assignment_state;
use crate::inbox;
use crate::json;
use crate::rows::{Assignment, AssignmentView, InboxEvent, InboxEventView};
use crate::store::{Store, StoreError, StoreView, SUPERVISOR_ID};
use crate::table;
use crate::table::Row;
use crate::text;
use vstd::prelude::*;
use vstd::string::*;

verus! {

/// States an assignment can still move out of on its own.
pub const EXECUTING_STATES: [&'static str; 3] = ["queued", "delivered", "unknown"];

/// Everything still owed attention.
pub const OPEN_STATES: [&'static str; 6] = [
    "queued",
    "delivered",
    "unknown",
    "awaiting_review",
    "blocked",
    "quota_blocked",
];

/// Stuck with nobody looking after it can only be what is in one of these: `quota_blocked` waits for
/// a known time and `blocked` for an answer.
pub const STALLED_STATES: [&'static str; 4] = ["queued", "delivered", "unknown", "awaiting_review"];

/// The states quoted and separated by commas, as a query takes them.
pub open spec fn quoted(states: Seq<&str>) -> Seq<char>
    decreases states.len(),
{
    if states.len() == 0 {
        seq![]
    } else {
        let one = seq!['\''] + states.last()@ + seq!['\''];
        if states.len() == 1 {
            one
        } else {
            quoted(states.drop_last()) + seq![','] + one
        }
    }
}

pub fn sql_list(states: &[&str]) -> (r: String)
    ensures
        r@ == quoted(states@),
{
    proof {
        reveal_strlit("'");
        reveal_strlit(",");
    }
    let mut out = String::new();
    let mut i: usize = 0;
    assert(out@ =~= quoted(states@.take(0)));
    while i < states.len()
        invariant
            i <= states.len(),
            "'"@ =~= seq!['\''],
            ","@ =~= seq![','],
            out@ == quoted(states@.take(i as int)),
        decreases states.len() - i,
    {
        let ghost upto = states@.take(i as int + 1);
        assert(upto.drop_last() =~= states@.take(i as int));
        let ghost was = out@;
        if i > 0 {
            out.append(",");
        } else {
            assert(states@.take(0) =~= Seq::<&str>::empty());
        }
        out.append("'");
        out.append(states[i]);
        out.append("'");
        assert(out@ =~= quoted(upto));
        i += 1;
    }
    assert(states@.take(i as int) =~= states@);
    out
}

// ---------------------------------------------------------------- one assignment

/// The request id a delivery goes out under: a re-send after a quota stop carries its number, so
/// that it is a turn of its own and yet the same one however often it is tried.
pub open spec fn delivery_request_id(a: AssignmentView) -> Seq<char> {
    if a.quota_retries <= 0 {
        a.client_request_id
    } else {
        a.client_request_id + "#r"@ + text::decimal(a.quota_retries as int)
    }
}

/// The files or modules that an ownership column names; an unreadable one names none.
pub open spec fn owned_parts(a: AssignmentView) -> Seq<Seq<char>> {
    match a.ownership_json {
        Some(j) => match json::json_strings(j) {
            Some(v) => v,
            None => seq![],
        },
        None => seq![],
    }
}

impl Assignment {
    /// A notice: nobody waits for a reply, nobody accepts it.
    pub fn is_notice(&self) -> (r: bool)
        ensures
            r == (self@.expects_review == 0),
    {
        self.expects_review == 0
    }

    /// The request id to send this assignment out under.
    pub fn dispatch_crid(&self) -> (r: String)
        ensures
            r@ == delivery_request_id(self@),
    {
        if self.quota_retries <= 0 {
            self.client_request_id.clone()
        } else {
            let mut s = self.client_request_id.clone();
            s.append("#r");
            s.append(text::signed(self.quota_retries).as_str());
            s
        }
    }

    /// Files or modules this assignment was handed.
    pub fn ownership(&self) -> (r: Vec<String>)
        ensures
            text::texts(r@) == owned_parts(self@),
    {
        let none: Vec<String> = Vec::new();
        assert(text::texts(none@) =~= seq![]);
        match &self.ownership_json {
            Some(j) => match json::strings(j.as_str()) {
                Some(v) => v,
                None => none,
            },
            None => none,
        }
    }

    /// In flight, waiting for acceptance, blocked, or waiting for quota.
    pub fn is_open(&self) -> (r: bool)
        ensures
            r == assignment_state::open_state(self@.status),
    {
        assignment_state::is_open(self.status.as_str())
    }

    /// The daemon can still move this one on its own.
    pub fn is_executing(&self) -> (r: bool)
        ensures
            r == assignment_state::in_flight(self@.status),
    {
        assignment_state::is_in_flight(self.status.as_str())
    }
}

// ---------------------------------------------------------------- finding

/// The assignment with this id.
pub open spec fn with_id(id: Seq<char>) -> spec_fn(AssignmentView) -> bool {
    |a: AssignmentView| a.id == id
}

/// The supervisor's assignment with this request id.
pub open spec fn with_crid(crid: Seq<char>) -> spec_fn(AssignmentView) -> bool {
    |a: AssignmentView| a.supervisor_id == "AGM"@ && a.client_request_id == crid
}

/// The assignment of this turn.
pub open spec fn with_turn(turn_id: Seq<char>) -> spec_fn(AssignmentView) -> bool {
    |a: AssignmentView| a.turn_id == Some(turn_id)
}

fn copy_of(a: Option<&Assignment>) -> (r: Option<Assignment>)
    ensures
        table::opt_view(r) == match a {
            Some(x) => Some(x@),
            None => None,
        },
{
    match a {
        Some(x) => Some(x.copied()),
        None => None,
    }
}

pub(crate) fn has_id(a: &Assignment, id: &str) -> (b: bool)
    ensures
        b == (with_id(id@))(a@),
{
    text::same(a.id.as_str(), id)
}

pub(crate) fn ours(a: &Assignment) -> (b: bool)
    ensures
        b == (a@.supervisor_id == "AGM"@),
{
    text::same(a.supervisor_id.as_str(), SUPERVISOR_ID)
}

pub fn assignment(s: &Store, id: &str) -> (r: Option<Assignment>)
    ensures
        table::opt_view(r) == table::first(s@.assignments, with_id(id@)),
{
    copy_of(table::find(&s.assignments, |a: &Assignment| -> (b: bool)
        ensures b == (with_id(id@))(a@)
        { has_id(a, id) }, Ghost(with_id(id@))))
}

pub fn assignment_by_crid(s: &Store, crid: &str) -> (r: Option<Assignment>)
    ensures
        table::opt_view(r) == table::first(s@.assignments, with_crid(crid@)),
{
    copy_of(table::find(&s.assignments, |a: &Assignment| -> (b: bool)
        ensures b == (with_crid(crid@))(a@)
        { ours(a) && text::same(a.client_request_id.as_str(), crid) }, Ghost(with_crid(crid@))))
}

pub fn assignment_by_turn(s: &Store, turn_id: &str) -> (r: Option<Assignment>)
    ensures
        table::opt_view(r) == table::first(s@.assignments, with_turn(turn_id@)),
{
    copy_of(table::find(&s.assignments, |a: &Assignment| -> (b: bool)
        ensures b == (with_turn(turn_id@))(a@)
        { text::is_text(&a.turn_id, turn_id) }, Ghost(with_turn(turn_id@))))
}

// ---------------------------------------------------------------- writing down

/// The ownership column of a list of files or modules: none for an empty list.
pub open spec fn ownership_column(parts: Seq<Seq<char>>) -> Option<Seq<char>> {
    if parts.len() == 0 {
        None
    } else {
        Some(json::json_list(parts))
    }
}

pub(crate) fn ownership_text(parts: &[String]) -> (r: Option<String>)
    ensures
        text::opt(r) == ownership_column(text::texts(parts@)),
        r matches Some(t) ==> json::json_strings(t@) == Some(text::texts(parts@)),
{
    if parts.len() == 0 {
        None
    } else {
        Some(json::list_text(parts))
    }
}

/// An assignment as it is written down: queued, tried never.
pub open spec fn queued_assignment(
    id: Seq<char>,
    now: Seq<char>,
    request_id: Option<Seq<char>>,
    target_bot_id: Seq<char>,
    crid: Seq<char>,
    words: Seq<char>,
    ownership: Option<Seq<char>>,
    follow_up_of: Option<Seq<char>>,
    expects_review: i64,
    mission_id: Option<Seq<char>>,
    mission_role: Option<Seq<char>>,
    review_role: Option<Seq<char>>,
) -> AssignmentView {
    AssignmentView {
        id,
        supervisor_id: "AGM"@,
        request_id,
        target_bot_id,
        client_request_id: crid,
        turn_id: None,
        text: words,
        status: "queued"@,
        delivery: None,
        result: None,
        error: None,
        attempts: 0,
        next_attempt_at: None,
        created_at: now,
        updated_at: now,
        completed_at: None,
        turn_status: None,
        evidence_complete: None,
        reviewed_at: None,
        reviewed_by: None,
        review_decision: None,
        review_reason: None,
        followup_assignment_id: None,
        follow_up_of,
        legacy_closed: 0,
        ownership_json: ownership,
        expects_review,
        resume_at: None,
        quota_retries: 0,
        mission_id,
        mission_role,
        turn_error: None,
        review_role,
        conflict_since: None,
    }
}

pub(crate) fn queued(
    id: &str,
    now: &str,
    request_id: Option<&str>,
    target_bot_id: &str,
    crid: &str,
    words: &str,
    ownership: Option<String>,
    follow_up_of: Option<&str>,
    expects_review: i64,
    mission_id: Option<&str>,
    mission_role: Option<&str>,
    review_role: Option<&str>,
) -> (r: Assignment)
    ensures
        r@ == queued_assignment(
            id@,
            now@,
            text::arg(request_id),
            target_bot_id@,
            crid@,
            words@,
            text::opt(ownership),
            text::arg(follow_up_of),
            expects_review,
            text::arg(mission_id),
            text::arg(mission_role),
            text::arg(review_role),
        ),
{
    Assignment {
        id: id.to_owned(),
        supervisor_id: SUPERVISOR_ID.to_owned(),
        request_id: text::owned(request_id),
        target_bot_id: target_bot_id.to_owned(),
        client_request_id: crid.to_owned(),
        turn_id: None,
        text: words.to_owned(),
        status: "queued".to_owned(),
        delivery: None,
        result: None,
        error: None,
        attempts: 0,
        next_attempt_at: None,
        created_at: now.to_owned(),
        updated_at: now.to_owned(),
        completed_at: None,
        turn_status: None,
        evidence_complete: None,
        reviewed_at: None,
        reviewed_by: None,
        review_decision: None,
        review_reason: None,
        followup_assignment_id: None,
        follow_up_of: text::owned(follow_up_of),
        legacy_closed: 0,
        ownership_json: ownership,
        expects_review,
        resume_at: None,
        quota_retries: 0,
        mission_id: text::owned(mission_id),
        mission_role: text::owned(mission_role),
        turn_error: None,
        review_role: text::owned(review_role),
        conflict_since: None,
    }
}

/// The mission an assignment belongs to.
pub open spec fn mission_of(mission: Option<(&str, &str)>) -> Option<Seq<char>> {
    match mission {
        Some(m) => Some(m.0@),
        None => None,
    }
}

/// The role an assignment plays in its mission.
pub open spec fn mission_role_of(mission: Option<(&str, &str)>) -> Option<Seq<char>> {
    match mission {
        Some(m) => Some(m.1@),
        None => None,
    }
}

/// What writing an assignment down comes to, and the store afterwards.
pub open spec fn inserting(
    s: StoreView,
    now: Seq<char>,
    id: Seq<char>,
    request_id: Option<Seq<char>>,
    target_bot_id: Seq<char>,
    crid: Seq<char>,
    words: Seq<char>,
    ownership: Seq<Seq<char>>,
    follow_up_of: Option<Seq<char>>,
    expects_review: bool,
    mission_id: Option<Seq<char>>,
    mission_role: Option<Seq<char>>,
    review_role: Option<Seq<char>>,
) -> (Result<AssignmentView, StoreError>, StoreView) {
    let row = queued_assignment(
        id,
        now,
        request_id,
        target_bot_id,
        crid,
        words,
        ownership_column(ownership),
        follow_up_of,
        if expects_review {
            1
        } else {
            0
        },
        mission_id,
        mission_role,
        review_role,
    );
    if table::any(s.assignments, with_id(id)) {
        (Err(StoreError::IdTaken), s)
    } else if table::any(s.assignments, with_crid(crid)) {
        (Err(StoreError::RequestIdTaken), s)
    } else {
        (Ok(row), StoreView { assignments: s.assignments.push(row), ..s })
    }
}

/// Write the assignment down before anything is sent, with its mission and the role that decides on it in the same
/// write: a crash after this leaves a queued row that is picked up with the same request id.
pub fn insert_assignment_linked(
    s: &mut Store,
    now: &str,
    id: &str,
    request_id: Option<&str>,
    target_bot_id: &str,
    client_request_id: &str,
    words: &str,
    ownership: &[String],
    follow_up_of: Option<&str>,
    expects_review: bool,
    mission: Option<(&str, &str)>,
    review_role: Option<&str>,
) -> (res: Result<Assignment, StoreError>)
    ensures
        ({
            let (got, after) = inserting(
                old(s)@,
                now@,
                id@,
                text::arg(request_id),
                target_bot_id@,
                client_request_id@,
                words@,
                text::texts(ownership@),
                text::arg(follow_up_of),
                expects_review,
                mission_of(mission),
                mission_role_of(mission),
                text::arg(review_role),
            );
            &&& final(s)@ == after
            &&& match got {
                Ok(row) => res is Ok && res->Ok_0@ == row && owned_parts(row) == text::texts(ownership@),
                Err(e) => res == Err::<Assignment, StoreError>(e),
            }
        }),
{
    let id_taken = assignment(s, id).is_some();
    proof {
        table::first_is_a_hit(s@.assignments, with_id(id@));
        table::first_is_a_hit(s@.assignments, with_crid(client_request_id@));
    }
    if id_taken {
        return Err(StoreError::IdTaken);
    }
    if assignment_by_crid(s, client_request_id).is_some() {
        return Err(StoreError::RequestIdTaken);
    }
    let (mission_id, mission_role): (Option<&str>, Option<&str>) = match mission {
        Some((m, r)) => (Some(m), Some(r)),
        None => (None, None),
    };
    let row = queued(
        id,
        now,
        request_id,
        target_bot_id,
        client_request_id,
        words,
        ownership_text(ownership),
        follow_up_of,
        if expects_review {
            1
        } else {
            0
        },
        mission_id,
        mission_role,
        review_role,
    );
    let r = row.copied();
    assert(text::texts(ownership@).len() == 0 ==> text::texts(ownership@) =~= seq![]);
    s.assignments.push(row);
    Ok(r)
}

/// Write down an assignment without a mission, that the responder decides on.
pub fn insert_assignment(
    s: &mut Store,
    now: &str,
    id: &str,
    request_id: Option<&str>,
    target_bot_id: &str,
    client_request_id: &str,
    words: &str,
    ownership: &[String],
    follow_up_of: Option<&str>,
    expects_review: bool,
) -> (res: Result<Assignment, StoreError>)
    ensures
        ({
            let (got, after) = inserting(
                old(s)@,
                now@,
                id@,
                text::arg(request_id),
                target_bot_id@,
                client_request_id@,
                words@,
                text::texts(ownership@),
                text::arg(follow_up_of),
                expects_review,
                None,
                None,
                None,
            );
            &&& final(s)@ == after
            &&& match got {
                Ok(row) => res is Ok && res->Ok_0@ == row && owned_parts(row) == text::texts(ownership@),
                Err(e) => res == Err::<Assignment, StoreError>(e),
            }
        }),
{
    insert_assignment_linked(
        s,
        now,
        id,
        request_id,
        target_bot_id,
        client_request_id,
        words,
        ownership,
        follow_up_of,
        expects_review,
        None,
        None,
    )
}

// ---------------------------------------------------------------- lists

/// One assignment was written before another.
pub open spec fn older() -> spec_fn(AssignmentView, AssignmentView) -> bool {
    |a: AssignmentView, b: AssignmentView| text::text_before(a.created_at, b.created_at)
}

/// One assignment was written after another.
pub open spec fn newer() -> spec_fn(AssignmentView, AssignmentView) -> bool {
    |a: AssignmentView, b: AssignmentView| text::text_before(b.created_at, a.created_at)
}

/// One assignment was last touched before another.
pub open spec fn idle_longer() -> spec_fn(AssignmentView, AssignmentView) -> bool {
    |a: AssignmentView, b: AssignmentView| text::text_before(a.updated_at, b.updated_at)
}

/// The assignments of a mission.
pub open spec fn in_mission(mission_id: Seq<char>) -> spec_fn(AssignmentView) -> bool {
    |a: AssignmentView| a.mission_id == Some(mission_id)
}

/// The supervisor's assignments.
pub open spec fn all_ours() -> spec_fn(AssignmentView) -> bool {
    |a: AssignmentView| a.supervisor_id == "AGM"@
}

/// The supervisor's assignments that the daemon itself can still move.
pub open spec fn executing() -> spec_fn(AssignmentView) -> bool {
    |a: AssignmentView| a.supervisor_id == "AGM"@ && assignment_state::in_flight(a.status)
}

/// The supervisor's assignments that are still owed attention.
pub open spec fn unsettled() -> spec_fn(AssignmentView) -> bool {
    |a: AssignmentView| a.supervisor_id == "AGM"@ && assignment_state::open_state(a.status)
}

/// The supervisor's assignments in one state.
pub open spec fn ours_in(status: Seq<char>) -> spec_fn(AssignmentView) -> bool {
    |a: AssignmentView| a.supervisor_id == "AGM"@ && a.status == status
}

/// Work that has never reached anybody, and was written down by the cutoff.
pub open spec fn undelivered_since(cutoff: Seq<char>) -> spec_fn(AssignmentView) -> bool {
    |a: AssignmentView| 
        a.supervisor_id == "AGM"@ && a.status == "queued"@ && a.turn_id is None && !text::text_before(cutoff, a.created_at)
}

/// Work that has not moved since the cutoff, and that nothing in particular is waited for.
pub open spec fn idle_since(cutoff: Seq<char>) -> spec_fn(AssignmentView) -> bool {
    |a: AssignmentView| 
        a.supervisor_id == "AGM"@ && assignment_state::stallable(a.status) && !(a.expects_review == 0 && a.status
            == "awaiting_review"@) && !text::text_before(cutoff, a.updated_at)
}

/// The assignments of a mission, oldest first.
pub open spec fn mission_list(rows: Seq<AssignmentView>, mission_id: Seq<char>) -> Seq<AssignmentView> {
    table::ordered(rows.filter(in_mission(mission_id)), older())
}

/// All assignments of a mission, oldest first. Two that were written in the same millisecond stand in
/// the order they were written in: the last one that is open is the phase the mission is in.
pub fn mission_assignments(s: &Store, mission_id: &str) -> (r: Vec<Assignment>)
    ensures
        table::views(r@) == mission_list(s@.assignments, mission_id@),
{
    let rows = table::select(&s.assignments, |a: &Assignment| -> (b: bool)
        ensures b == (in_mission(mission_id@))(a@)
        { text::is_text(&a.mission_id, mission_id) }, Ghost(in_mission(mission_id@)));
    table::arrange(rows, |a: &Assignment, b: &Assignment| -> (c: bool)
        ensures c == (older())(a@, b@)
        { text::precedes(a.created_at.as_str(), b.created_at.as_str()) }, Ghost(older()))
}

/// At most `limit` assignments, the latest first.
pub open spec fn latest(rows: Seq<AssignmentView>, limit: int) -> Seq<AssignmentView> {
    table::limited(table::ordered(rows.filter(all_ours()), newer()), limit)
}

/// The latest assignments.
pub fn list_assignments(s: &Store, limit: i64) -> (r: Vec<Assignment>)
    ensures
        table::views(r@) == latest(s@.assignments, limit as int),
{
    let rows = table::select(&s.assignments, |a: &Assignment| -> (b: bool)
        ensures b == (all_ours())(a@)
        { ours(a) }, Ghost(all_ours()));
    let sorted = table::arrange(rows, |a: &Assignment, b: &Assignment| -> (c: bool)
        ensures c == (newer())(a@, b@)
        { text::precedes(b.created_at.as_str(), a.created_at.as_str()) }, Ghost(newer()));
    table::limit(sorted, limit)
}

/// What the daemon itself can still move, oldest first.
pub open spec fn open_list(rows: Seq<AssignmentView>) -> Seq<AssignmentView> {
    table::ordered(rows.filter(executing()), older())
}

/// The controller's work list: what the daemon itself can still move.
pub fn open_assignments(s: &Store) -> (r: Vec<Assignment>)
    ensures
        table::views(r@) == open_list(s@.assignments),
{
    let rows = table::select(&s.assignments, |a: &Assignment| -> (b: bool)
        ensures b == (executing())(a@)
        { ours(a) && a.is_executing() }, Ghost(executing()));
    table::arrange(rows, |a: &Assignment, b: &Assignment| -> (c: bool)
        ensures c == (older())(a@, b@)
        { text::precedes(a.created_at.as_str(), b.created_at.as_str()) }, Ghost(older()))
}

/// What is still owed attention, oldest first.
pub open spec fn unsettled_list(rows: Seq<AssignmentView>) -> Seq<AssignmentView> {
    table::ordered(rows.filter(unsettled()), older())
}

/// Everything still owed attention: work whose turn has ended is on it until somebody decides it.
pub fn unsettled_assignments(s: &Store) -> (r: Vec<Assignment>)
    ensures
        table::views(r@) == unsettled_list(s@.assignments),
{
    let rows = table::select(&s.assignments, |a: &Assignment| -> (b: bool)
        ensures b == (unsettled())(a@)
        { ours(a) && a.is_open() }, Ghost(unsettled()));
    table::arrange(rows, |a: &Assignment, b: &Assignment| -> (c: bool)
        ensures c == (older())(a@, b@)
        { text::precedes(a.created_at.as_str(), b.created_at.as_str()) }, Ghost(older()))
}

/// What has never reached anybody and was written down by the cutoff, oldest first.
pub open spec fn undelivered_list(rows: Seq<AssignmentView>, cutoff: Seq<char>) -> Seq<AssignmentView> {
    table::ordered(rows.filter(undelivered_since(cutoff)), older())
}

/// Work that has never reached anybody, by how long it has been owed: a retry moves `updated_at` but
/// not `created_at`.
pub fn assignments_undelivered_since(s: &Store, cutoff: &str) -> (r: Vec<Assignment>)
    ensures
        table::views(r@) == undelivered_list(s@.assignments, cutoff@),
{
    let rows = table::select(&s.assignments, |a: &Assignment| -> (b: bool)
        ensures b == (undelivered_since(cutoff@))(a@)
        { 
            ours(a) && text::same(a.status.as_str(), "queued") && a.turn_id.is_none() && !text::precedes(
                cutoff,
                a.created_at.as_str(),
            )
         }, Ghost(undelivered_since(cutoff@)));
    table::arrange(rows, |a: &Assignment, b: &Assignment| -> (c: bool)
        ensures c == (older())(a@, b@)
        { text::precedes(a.created_at.as_str(), b.created_at.as_str()) }, Ghost(older()))
}

/// What has not moved since the cutoff, the longest idle first.
pub open spec fn idle_list(rows: Seq<AssignmentView>, cutoff: Seq<char>) -> Seq<AssignmentView> {
    table::ordered(rows.filter(idle_since(cutoff)), idle_longer())
}

/// Assignments that have been sitting in one open state without moving. What waits for quota waits
/// for a known time and a notice waits for nobody: neither is stuck.
pub fn assignments_idle_since(s: &Store, cutoff: &str) -> (r: Vec<Assignment>)
    ensures
        table::views(r@) == idle_list(s@.assignments, cutoff@),
{
    let rows = table::select(&s.assignments, |a: &Assignment| -> (b: bool)
        ensures b == (idle_since(cutoff@))(a@)
        { 
            ours(a) && assignment_state::is_stallable(a.status.as_str()) && !(a.expects_review == 0 && text::same(
                a.status.as_str(),
                "awaiting_review",
            )) && !text::precedes(cutoff, a.updated_at.as_str())
         }, Ghost(idle_since(cutoff@)));
    table::arrange(rows, |a: &Assignment, b: &Assignment| -> (c: bool)
        ensures c == (idle_longer())(a@, b@)
        { text::precedes(a.updated_at.as_str(), b.updated_at.as_str()) }, Ghost(idle_longer()))
}

/// What waits for quota, the longest idle first.
pub open spec fn quota_list(rows: Seq<AssignmentView>) -> Seq<AssignmentView> {
    table::ordered(rows.filter(ours_in("quota_blocked"@)), idle_longer())
}

/// Everything that waits for quota, whether or not its time has come.
pub fn quota_blocked_all(s: &Store) -> (r: Vec<Assignment>)
    ensures
        table::views(r@) == quota_list(s@.assignments),
{
    let rows = table::select(&s.assignments, |a: &Assignment| -> (b: bool)
        ensures b == (ours_in("quota_blocked"@))(a@)
        { ours(a) && text::same(a.status.as_str(), "quota_blocked") }, Ghost(ours_in("quota_blocked"@)));
    table::arrange(rows, |a: &Assignment, b: &Assignment| -> (c: bool)
        ensures c == (idle_longer())(a@, b@)
        { text::precedes(a.updated_at.as_str(), b.updated_at.as_str()) }, Ghost(idle_longer()))
}

/// How many assignments are still owed attention.
pub open spec fn unsettled_count(rows: Seq<AssignmentView>) -> nat {
    table::hits(rows, unsettled())
}

/// Assignments that are not settled: a turn that ended does not take one off this count.
pub fn open_assignment_count(s: &Store) -> (n: usize)
    ensures
        n == unsettled_count(s@.assignments),
{
    table::count(&s.assignments, |a: &Assignment| -> (b: bool)
        ensures b == (unsettled())(a@)
        { ours(a) && a.is_open() }, Ghost(unsettled()))
}

/// How many assignments nobody has accepted or rejected.
pub open spec fn undecided_count(rows: Seq<AssignmentView>) -> nat {
    table::hits(rows, ours_in("awaiting_review"@))
}

/// Of those, the ones nobody has accepted or rejected yet.
pub fn awaiting_review_count(s: &Store) -> (n: usize)
    ensures
        n == undecided_count(s@.assignments),
{
    table::count(&s.assignments, |a: &Assignment| -> (b: bool)
        ensures b == (ours_in("awaiting_review"@))(a@)
        { ours(a) && text::same(a.status.as_str(), "awaiting_review") }, Ghost(ours_in("awaiting_review"@)))
}

/// How much is owed to the manager.
pub open spec fn pending_total(s: StoreView) -> nat {
    table::hits(s.assignments, unsettled()) + table::hits(s.inbox, inbox::unhandled())
}

/// Everything still owed to the manager: unhandled notifications plus open work.
pub fn pending_count(s: &Store) -> (n: u128)
    ensures
        n == pending_total(s@),
{
    open_assignment_count(s) as u128 + inbox::open_inbox_count(s) as u128
}

// ---------------------------------------------------------------- delivery

/// The assignment with this id, while it is in flight.
pub open spec fn flying(id: Seq<char>) -> spec_fn(AssignmentView) -> bool {
    |a: AssignmentView| a.id == id && assignment_state::in_flight(a.status)
}

/// The assignment with this id, in this state.
pub open spec fn at(id: Seq<char>, status: Seq<char>) -> spec_fn(AssignmentView) -> bool {
    |a: AssignmentView| a.id == id && a.status == status
}

/// An assignment whose mission was written down.
pub open spec fn linked(mission_id: Seq<char>, role: Seq<char>, now: Seq<char>) -> spec_fn(AssignmentView) -> AssignmentView {
    |a: AssignmentView|
        (AssignmentView {
            mission_id: Some(mission_id),
            mission_role: Some(role),
            updated_at: now,
            ..a
        })
}

/// An assignment whose turn ended in this error.
pub open spec fn failed_with(turn_error: Seq<char>) -> spec_fn(AssignmentView) -> AssignmentView {
    |a: AssignmentView|
        (AssignmentView {
            turn_error: Some(turn_error),
            ..a
        })
}

/// The status a delivery is recorded as: a prompt that may or may not have landed is a state of its own.
pub open spec fn delivery_status(delivery: Seq<char>) -> Seq<char> {
    if delivery == "unknown"@ {
        "unknown"@
    } else {
        "delivered"@
    }
}

/// An assignment that went out.
pub open spec fn sent(turn_id: Seq<char>, delivery: Seq<char>, now: Seq<char>) -> spec_fn(AssignmentView) -> AssignmentView {
    |a: AssignmentView|
        (AssignmentView {
            turn_id: Some(turn_id),
            delivery: Some(delivery),
            status: delivery_status(delivery),
            attempts: table::bumped(a.attempts),
            next_attempt_at: None,
            conflict_since: None,
            updated_at: now,
            ..a
        })
}

/// An assignment that waits without spending an attempt.
pub open spec fn held(until: Seq<char>, why: Seq<char>, now: Seq<char>) -> spec_fn(AssignmentView) -> AssignmentView {
    |a: AssignmentView|
        (AssignmentView {
            next_attempt_at: Some(until),
            error: Some(why),
            conflict_since: None,
            updated_at: now,
            ..a
        })
}

/// An assignment whose hold was lifted.
pub open spec fn unheld(now: Seq<char>) -> spec_fn(AssignmentView) -> AssignmentView {
    |a: AssignmentView|
        (AssignmentView {
            next_attempt_at: None,
            error: None,
            conflict_since: None,
            updated_at: now,
            ..a
        })
}

/// An assignment whose delivery was tried in vain.
pub open spec fn retried(next: Seq<char>, why: Seq<char>, now: Seq<char>) -> spec_fn(AssignmentView) -> AssignmentView {
    |a: AssignmentView|
        (AssignmentView {
            attempts: table::bumped(a.attempts),
            next_attempt_at: Some(next),
            error: Some(why),
            updated_at: now,
            ..a
        })
}

/// An assignment whose delivery was refused; the streak began with the first refusal.
pub open spec fn refused(next: Seq<char>, why: Seq<char>, now: Seq<char>) -> spec_fn(AssignmentView) -> AssignmentView {
    |a: AssignmentView|
        (AssignmentView {
            attempts: table::bumped(a.attempts),
            next_attempt_at: Some(next),
            error: Some(why),
            conflict_since: if a.conflict_since is Some { a.conflict_since } else { Some(now) },
            updated_at: now,
            ..a
        })
}

/// An assignment that cannot be handed over.
pub open spec fn stuck(why: Seq<char>, now: Seq<char>) -> spec_fn(AssignmentView) -> AssignmentView {
    |a: AssignmentView|
        (AssignmentView {
            status: "blocked"@,
            error: Some(why),
            next_attempt_at: None,
            updated_at: now,
            ..a
        })
}

/// An assignment that waited in a bot's queue for too long.
pub open spec fn stale(why: Seq<char>, now: Seq<char>) -> spec_fn(AssignmentView) -> AssignmentView {
    |a: AssignmentView|
        (AssignmentView {
            status: "blocked"@,
            error: Some(why),
            updated_at: now,
            ..a
        })
}

/// An assignment whose quota did not come back when it was expected: counted, and put off.
pub open spec fn extended(resume_at: Seq<char>, now: Seq<char>) -> spec_fn(AssignmentView) -> AssignmentView {
    |a: AssignmentView|
        (AssignmentView {
            resume_at: Some(resume_at),
            quota_retries: table::bumped(a.quota_retries),
            updated_at: now,
            ..a
        })
}

/// The words a hold by a restart window begins with.
pub open spec fn hold_words() -> Seq<char> {
    "restart window held until "@
}

/// A queued assignment that a restart window holds.
pub open spec fn window_held() -> spec_fn(AssignmentView) -> bool {
    |a: AssignmentView|
        a.status == "queued"@ && (a.error matches Some(e) && hold_words().is_prefix_of(e))
}

/// The assignments after one was put under a mission.
pub open spec fn mission_linked(rows: Seq<AssignmentView>, id: Seq<char>, mission_id: Seq<char>, role: Seq<char>, now: Seq<char>) -> Seq<AssignmentView> {
    table::changed(rows, with_id(id), linked(mission_id, role, now))
}

/// Put an assignment under a mission.
pub fn set_mission_link(s: &mut Store, now: &str, id: &str, mission_id: &str, role: &str)
    ensures
        final(s)@ == (StoreView {
            assignments: mission_linked(old(s)@.assignments, id@, mission_id@, role@, now@),
            ..old(s)@
        }),
{
    table::change(
        &mut s.assignments,
        |a: &Assignment| -> (b: bool)
            ensures b == (with_id(id@))(a@)
            { has_id(a, id) },
        |a: &Assignment| -> (x: Assignment)
            ensures x@ == (linked(mission_id@, role@, now@))(a@)
            {
                Assignment {
                    mission_id: Some(mission_id.to_owned()),
                    mission_role: Some(role.to_owned()),
                    updated_at: now.to_owned(),
                    ..a.copied()
                }
            },
        Ghost(with_id(id@)),
        Ghost(linked(mission_id@, role@, now@)),
    );
}

/// The assignments after the error of a turn was written down.
pub open spec fn turn_failed(rows: Seq<AssignmentView>, id: Seq<char>, turn_error: Seq<char>) -> Seq<AssignmentView> {
    table::changed(rows, with_id(id), failed_with(turn_error))
}

/// Why the run says the turn ended.
pub fn set_turn_error(s: &mut Store, id: &str, turn_error: &str)
    ensures
        final(s)@ == (StoreView {
            assignments: turn_failed(old(s)@.assignments, id@, turn_error@),
            ..old(s)@
        }),
{
    table::change(
        &mut s.assignments,
        |a: &Assignment| -> (b: bool)
            ensures b == (with_id(id@))(a@)
            { has_id(a, id) },
        |a: &Assignment| -> (x: Assignment)
            ensures x@ == (failed_with(turn_error@))(a@)
            {
                Assignment {
                    turn_error: Some(turn_error.to_owned()),
                    ..a.copied()
                }
            },
        Ghost(with_id(id@)),
        Ghost(failed_with(turn_error@)),
    );
}

/// Whether an assignment went out, and the assignments afterwards.
pub open spec fn gone_out(rows: Seq<AssignmentView>, id: Seq<char>, turn_id: Seq<char>, delivery: Seq<char>, now: Seq<char>) -> (bool, Seq<AssignmentView>) {
    (table::any(rows, flying(id)), table::changed(rows, flying(id), sent(turn_id, delivery, now)))
}

/// Record that an assignment went out. False is that it is no longer in flight, most likely because it
/// was decided meanwhile, and that nothing was written.
pub fn mark_delivered(s: &mut Store, now: &str, id: &str, turn_id: &str, delivery: &str) -> (moved: bool)
    ensures
        ({
            let (went, after) = gone_out(old(s)@.assignments, id@, turn_id@, delivery@, now@);
            moved == went && final(s)@ == (StoreView { assignments: after, ..old(s)@ })
        }),
{
    let n = table::change(
        &mut s.assignments,
        |a: &Assignment| -> (b: bool)
            ensures b == (flying(id@))(a@)
            { has_id(a, id) && a.is_executing() },
        |a: &Assignment| -> (x: Assignment)
            ensures x@ == (sent(turn_id@, delivery@, now@))(a@)
            {
                Assignment {
                    turn_id: Some(turn_id.to_owned()),
                    delivery: Some(delivery.to_owned()),
                    status: if text::same(delivery, "unknown") {
                        "unknown".to_owned()
                    } else {
                        "delivered".to_owned()
                    },
                    attempts: table::bump(a.attempts),
                    next_attempt_at: None,
                    conflict_since: None,
                    updated_at: now.to_owned(),
                    ..a.copied()
                }
            },
        Ghost(flying(id@)),
        Ghost(sent(turn_id@, delivery@, now@)),
    );
    proof {
        table::any_is_counted(old(s)@.assignments, flying(id@));
    }
    n > 0
}

/// The assignments after a hold.
pub open spec fn put_on_hold(rows: Seq<AssignmentView>, id: Seq<char>, until: Seq<char>, why: Seq<char>, now: Seq<char>) -> Seq<AssignmentView> {
    table::changed(rows, at(id, "queued"@), held(until, why, now))
}

/// Hold a queued assignment without spending an attempt: waiting out a window is not a failed
/// delivery, and it ends the streak of refusals.
pub fn hold(s: &mut Store, now: &str, id: &str, until: &str, why: &str)
    ensures
        final(s)@ == (StoreView {
            assignments: put_on_hold(old(s)@.assignments, id@, until@, why@, now@),
            ..old(s)@
        }),
{
    table::change(
        &mut s.assignments,
        |a: &Assignment| -> (b: bool)
            ensures b == (at(id@, "queued"@))(a@)
            { has_id(a, id) && text::same(a.status.as_str(), "queued") },
        |a: &Assignment| -> (x: Assignment)
            ensures x@ == (held(until@, why@, now@))(a@)
            {
                Assignment {
                    next_attempt_at: Some(until.to_owned()),
                    error: Some(why.to_owned()),
                    conflict_since: None,
                    updated_at: now.to_owned(),
                    ..a.copied()
                }
            },
        Ghost(at(id@, "queued"@)),
        Ghost(held(until@, why@, now@)),
    );
}

/// How many assignments a restart window held, and the assignments without those holds.
pub open spec fn let_go(rows: Seq<AssignmentView>, now: Seq<char>) -> (nat, Seq<AssignmentView>) {
    (table::hits(rows, window_held()), table::changed(rows, window_held(), unheld(now)))
}

/// Lift every hold that a restart window put on queued assignments; how many were lifted.
pub fn clear_restart_holds(s: &mut Store, now: &str) -> (n: usize)
    ensures
        (n as nat, final(s)@.assignments) == let_go(old(s)@.assignments, now@),
        final(s)@ == (StoreView { assignments: final(s)@.assignments, ..old(s)@ }),
{
    table::change(
        &mut s.assignments,
        |a: &Assignment| -> (b: bool)
            ensures b == (window_held())(a@)
            { is_window_held(a) },
        |a: &Assignment| -> (x: Assignment)
            ensures x@ == (unheld(now@))(a@)
            {
                Assignment {
                    next_attempt_at: None,
                    error: None,
                    conflict_since: None,
                    updated_at: now.to_owned(),
                    ..a.copied()
                }
            },
        Ghost(window_held()),
        Ghost(unheld(now@)),
    )
}

fn is_window_held(a: &Assignment) -> (b: bool)
    ensures
        b == (window_held())(a@),
{
    text::same(a.status.as_str(), "queued") && (match &a.error {
        Some(e) => text::starts_with(e.as_str(), "restart window held until "),
        None => false,
    })
}

/// The assignments after a delivery failed.
pub open spec fn deferred(rows: Seq<AssignmentView>, id: Seq<char>, next: Seq<char>, why: Seq<char>, now: Seq<char>) -> Seq<AssignmentView> {
    table::changed(rows, at(id, "queued"@), retried(next, why, now))
}

/// A delivery that failed: try again later.
pub fn defer(s: &mut Store, now: &str, id: &str, next_attempt_at: &str, why: &str)
    ensures
        final(s)@ == (StoreView {
            assignments: deferred(old(s)@.assignments, id@, next_attempt_at@, why@, now@),
            ..old(s)@
        }),
{
    table::change(
        &mut s.assignments,
        |a: &Assignment| -> (b: bool)
            ensures b == (at(id@, "queued"@))(a@)
            { has_id(a, id) && text::same(a.status.as_str(), "queued") },
        |a: &Assignment| -> (x: Assignment)
            ensures x@ == (retried(next_attempt_at@, why@, now@))(a@)
            {
                Assignment {
                    attempts: table::bump(a.attempts),
                    next_attempt_at: Some(next_attempt_at.to_owned()),
                    error: Some(why.to_owned()),
                    updated_at: now.to_owned(),
                    ..a.copied()
                }
            },
        Ghost(at(id@, "queued"@)),
        Ghost(retried(next_attempt_at@, why@, now@)),
    );
}

/// The assignments after a delivery was refused.
pub open spec fn turned_away(rows: Seq<AssignmentView>, id: Seq<char>, next: Seq<char>, why: Seq<char>, now: Seq<char>) -> Seq<AssignmentView> {
    table::changed(rows, at(id, "queued"@), refused(next, why, now))
}

/// A delivery that was refused: try again later, and remember when the streak of refusals began.
pub fn defer_conflict(s: &mut Store, now: &str, id: &str, next_attempt_at: &str, why: &str)
    ensures
        final(s)@ == (StoreView {
            assignments: turned_away(old(s)@.assignments, id@, next_attempt_at@, why@, now@),
            ..old(s)@
        }),
{
    table::change(
        &mut s.assignments,
        |a: &Assignment| -> (b: bool)
            ensures b == (at(id@, "queued"@))(a@)
            { has_id(a, id) && text::same(a.status.as_str(), "queued") },
        |a: &Assignment| -> (x: Assignment)
            ensures x@ == (refused(next_attempt_at@, why@, now@))(a@)
            {
                Assignment {
                    attempts: table::bump(a.attempts),
                    next_attempt_at: Some(next_attempt_at.to_owned()),
                    error: Some(why.to_owned()),
                    conflict_since: if a.conflict_since.is_some() {
                        text::copied(&a.conflict_since)
                    } else {
                        Some(now.to_owned())
                    },
                    updated_at: now.to_owned(),
                    ..a.copied()
                }
            },
        Ghost(at(id@, "queued"@)),
        Ghost(refused(next_attempt_at@, why@, now@)),
    );
}

/// Whether an assignment was given up before it went out, and the assignments afterwards.
pub open spec fn given_up(rows: Seq<AssignmentView>, id: Seq<char>, why: Seq<char>, now: Seq<char>) -> (bool, Seq<AssignmentView>) {
    (table::any(rows, at(id, "queued"@)), table::changed(rows, at(id, "queued"@), stuck(why, now)))
}

/// It cannot be handed over: blocked, not failed, and no longer retried. Only what is still queued can
/// get here.
pub fn mark_undeliverable(s: &mut Store, now: &str, id: &str, why: &str) -> (moved: bool)
    ensures
        ({
            let (did, after) = given_up(old(s)@.assignments, id@, why@, now@);
            moved == did && final(s)@ == (StoreView { assignments: after, ..old(s)@ })
        }),
{
    let n = table::change(
        &mut s.assignments,
        |a: &Assignment| -> (b: bool)
            ensures b == (at(id@, "queued"@))(a@)
            { has_id(a, id) && text::same(a.status.as_str(), "queued") },
        |a: &Assignment| -> (x: Assignment)
            ensures x@ == (stuck(why@, now@))(a@)
            {
                Assignment {
                    status: "blocked".to_owned(),
                    error: Some(why.to_owned()),
                    next_attempt_at: None,
                    updated_at: now.to_owned(),
                    ..a.copied()
                }
            },
        Ghost(at(id@, "queued"@)),
        Ghost(stuck(why@, now@)),
    );
    proof {
        table::any_is_counted(old(s)@.assignments, at(id@, "queued"@));
    }
    n > 0
}

/// Whether an assignment was blocked where it waited, and the assignments afterwards.
pub open spec fn blocked_in_queue(rows: Seq<AssignmentView>, id: Seq<char>, why: Seq<char>, now: Seq<char>) -> (bool, Seq<AssignmentView>) {
    (table::any(rows, at(id, "delivered"@)), table::changed(rows, at(id, "delivered"@), stale(why, now)))
}

/// It waited in the bot's queue for too long: blocked, with the reason. Only what is delivered can get
/// here.
pub fn block_stale_queue(s: &mut Store, now: &str, id: &str, why: &str) -> (moved: bool)
    ensures
        ({
            let (did, after) = blocked_in_queue(old(s)@.assignments, id@, why@, now@);
            moved == did && final(s)@ == (StoreView { assignments: after, ..old(s)@ })
        }),
{
    let n = table::change(
        &mut s.assignments,
        |a: &Assignment| -> (b: bool)
            ensures b == (at(id@, "delivered"@))(a@)
            { has_id(a, id) && text::same(a.status.as_str(), "delivered") },
        |a: &Assignment| -> (x: Assignment)
            ensures x@ == (stale(why@, now@))(a@)
            {
                Assignment {
                    status: "blocked".to_owned(),
                    error: Some(why.to_owned()),
                    updated_at: now.to_owned(),
                    ..a.copied()
                }
            },
        Ghost(at(id@, "delivered"@)),
        Ghost(stale(why@, now@)),
    );
    proof {
        table::any_is_counted(old(s)@.assignments, at(id@, "delivered"@));
    }
    n > 0
}

/// The assignments after a wait for quota was put off.
pub open spec fn put_off(rows: Seq<AssignmentView>, id: Seq<char>, resume_at: Seq<char>, now: Seq<char>) -> Seq<AssignmentView> {
    table::changed(rows, at(id, "quota_blocked"@), extended(resume_at, now))
}

/// The time came and the quota did not: put off, and counted as a try, without another notification.
pub fn extend_quota_blocked(s: &mut Store, now: &str, id: &str, resume_at: &str)
    ensures
        final(s)@ == (StoreView {
            assignments: put_off(old(s)@.assignments, id@, resume_at@, now@),
            ..old(s)@
        }),
{
    table::change(
        &mut s.assignments,
        |a: &Assignment| -> (b: bool)
            ensures b == (at(id@, "quota_blocked"@))(a@)
            { has_id(a, id) && text::same(a.status.as_str(), "quota_blocked") },
        |a: &Assignment| -> (x: Assignment)
            ensures x@ == (extended(resume_at@, now@))(a@)
            {
                Assignment {
                    resume_at: Some(resume_at.to_owned()),
                    quota_retries: table::bump(a.quota_retries),
                    updated_at: now.to_owned(),
                    ..a.copied()
                }
            },
        Ghost(at(id@, "quota_blocked"@)),
        Ghost(extended(resume_at@, now@)),
    );
}

// ---------------------------------------------------------------- the end of a turn

/// What one outcome did to the world.
#[derive(Debug, Clone, Copy, PartialEq, Eq, Structural)]
pub struct Settled {
    /// The assignment moved.
    pub moved: bool,
    /// The notification was new, not a replay of one that is already queued.
    pub event_new: bool,
}

/// The turn ended of its own accord.
pub open spec fn ended_well(turn_status: Seq<char>) -> bool {
    turn_status == "completed"@ || turn_status == "completed_fallback"@
}

/// An assignment whose turn ended. A notice whose turn ended well is closed on the spot; everything
/// else waits for a decision.
pub open spec fn ended(
    turn_status: Seq<char>,
    evidence_complete: bool,
    result: Option<Seq<char>>,
    error: Option<Seq<char>>,
    now: Seq<char>,
) -> spec_fn(AssignmentView) -> AssignmentView {
    |a: AssignmentView|
        (AssignmentView {
            status: if ended_well(turn_status) && a.expects_review == 0 {
                "completed"@
            } else {
                "awaiting_review"@
            },
            turn_status: Some(turn_status),
            evidence_complete: Some(
                if evidence_complete {
                    1
                } else {
                    0
                },
            ),
            result: if result is Some {
                result
            } else {
                a.result
            },
            error: if error is Some {
                error
            } else {
                a.error
            },
            completed_at: Some(now),
            updated_at: now,
            ..a
        })
}

/// A notice that has been closed.
pub open spec fn closed_notice(a: AssignmentView) -> bool {
    a.expects_review == 0 && a.status == "completed"@
}

/// The payload of the event about a closed notice: nobody needs to review it. `None` where the
/// payload is neither a JSON object nor null.
pub open spec fn notice_payload(payload: Seq<char>) -> Option<Seq<char>> {
    match json::json_with_bool(payload, "needs_review"@, false) {
        Some(p) => json::json_with_str(p, "kind"@, "notice"@),
        None => None,
    }
}

fn noticed(payload: &str) -> (r: Option<String>)
    ensures
        text::opt(r) == notice_payload(payload@),
{
    match json::with_bool(payload, "needs_review", false) {
        Some(p) => json::with_str(p.as_str(), "kind", "notice"),
        None => None,
    }
}

fn end_turn(
    s: &mut Store,
    now: &str,
    id: &str,
    turn_status: &str,
    evidence_complete: bool,
    result: Option<&str>,
    error: Option<&str>,
)
    ensures
        final(s)@ == (StoreView {
            assignments: table::changed(
                old(s)@.assignments,
                flying(id@),
                ended(turn_status@, evidence_complete, text::arg(result), text::arg(error), now@),
            ),
            ..old(s)@
        }),
{
    table::change(
        &mut s.assignments,
        |a: &Assignment| -> (b: bool)
            ensures b == (flying(id@))(a@)
            { has_id(a, id) && a.is_executing() },
        |a: &Assignment| -> (x: Assignment)
            ensures x@ == (ended(turn_status@, evidence_complete, text::arg(result), text::arg(error), now@))(a@)
            {
                Assignment {
                    status: if turned_out_well(turn_status) && a.expects_review == 0 {
                        "completed".to_owned()
                    } else {
                        "awaiting_review".to_owned()
                    },
                    turn_status: Some(turn_status.to_owned()),
                    evidence_complete: Some(
                        if evidence_complete {
                            1
                        } else {
                            0
                        },
                    ),
                    result: text::or(result, &a.result),
                    error: text::or(error, &a.error),
                    completed_at: Some(now.to_owned()),
                    updated_at: now.to_owned(),
                    ..a.copied()
                }
            },
        Ghost(flying(id@)),
        Ghost(ended(turn_status@, evidence_complete, text::arg(result), text::arg(error), now@)),
    );
}

fn turned_out_well(turn_status: &str) -> (r: bool)
    ensures
        r == ended_well(turn_status@),
{
    text::same(turn_status, "completed") || text::same(turn_status, "completed_fallback")
}

fn some_flying(s: &Store, id: &str) -> (r: bool)
    ensures
        r == table::any(s@.assignments, flying(id@)),
{
    proof {
        table::first_is_a_hit(s@.assignments, flying(id@));
    }
    table::find(&s.assignments, |a: &Assignment| -> (b: bool)
        ensures b == (flying(id@))(a@)
        { has_id(a, id) && a.is_executing() }, Ghost(flying(id@))).is_some()
}

/// What the end of a turn comes to, and the store afterwards.
pub open spec fn settling(
    s: StoreView,
    now: Seq<char>,
    event_id: Seq<char>,
    id: Seq<char>,
    turn_status: Seq<char>,
    evidence_complete: bool,
    result: Option<Seq<char>>,
    error: Option<Seq<char>>,
    event_key: Seq<char>,
    kind: Seq<char>,
    payload: Seq<char>,
) -> (Result<Settled, StoreError>, StoreView) {
    let to = ended(turn_status, evidence_complete, result, error, now);
    let after = table::changed(s.assignments, flying(id), to);
    let row = table::first(after, with_id(id))->0;
    let told = if closed_notice(row) {
        notice_payload(payload)
    } else {
        Some(payload)
    };
    let event = inbox::fresh_event(
        event_id,
        event_key,
        if closed_notice(row) {
            "assignment_noticed"@
        } else {
            kind
        },
        Some(id),
        Some(row.target_bot_id),
        row.turn_id,
        told->0,
        now,
    );
    if !table::any(s.assignments, flying(id)) {
        (Ok(Settled { moved: false, event_new: false }), s)
    } else if told is None {
        (Err(StoreError::PayloadNotAnObject), s)
    } else {
        (
            Ok(Settled { moved: true, event_new: !table::any(s.inbox, inbox::known_event(event_id, event_key)) }),
            StoreView { assignments: after, inbox: inbox::with_event(s.inbox, event), ..s },
        )
    }
}

/// The turn ended: park the assignment for a decision and queue its notification, both or neither.
///
/// Nothing here accepts anything. Where the assignment was not in flight any more, nothing is
/// written and nobody is told: this call made no new fact.
pub fn settle_and_notify(
    s: &mut Store,
    now: &str,
    event_id: &str,
    id: &str,
    turn_status: &str,
    evidence_complete: bool,
    result: Option<&str>,
    error: Option<&str>,
    event_key: &str,
    kind: &str,
    payload: &str,
) -> (res: Result<Settled, StoreError>)
    ensures
        (res, final(s)@) == settling(
            old(s)@,
            now@,
            event_id@,
            id@,
            turn_status@,
            evidence_complete,
            text::arg(result),
            text::arg(error),
            event_key@,
            kind@,
            payload@,
        ),
{
    if !some_flying(s, id) {
        return Ok(Settled { moved: false, event_new: false });
    }
    let ghost to = ended(turn_status@, evidence_complete, text::arg(result), text::arg(error), now@);
    let ghost was = s@.assignments;
    proof {
        let i = choose|i: int| 0 <= i < was.len() && (flying(id@))(#[trigger] was[i]);
        assert((with_id(id@))(was[i]));
        table::first_is_a_hit(was, with_id(id@));
        table::first_of_changed(was, with_id(id@), flying(id@), to);
    }
    let row = match assignment(s, id) {
        Some(a) => a,
        None => {
            assert(false);
            return Ok(Settled { moved: false, event_new: false });
        },
    };
    let closed = row.is_notice() && (if row.is_executing() {
        turned_out_well(turn_status)
    } else {
        text::same(row.status.as_str(), "completed")
    });
    proof {
        reveal_strlit("completed");
        reveal_strlit("awaiting_review");
        assert("completed"@.len() == 9 && "awaiting_review"@.len() == 15);
    }
    let told = if closed {
        match noticed(payload) {
            Some(p) => p,
            None => {
                return Err(StoreError::PayloadNotAnObject);
            },
        }
    } else {
        payload.to_owned()
    };
    end_turn(s, now, id, turn_status, evidence_complete, result, error);
    let event_new = inbox::push_inbox(
        s,
        now,
        event_id,
        event_key,
        if closed {
            "assignment_noticed"
        } else {
            kind
        },
        Some(id),
        Some(row.target_bot_id.as_str()),
        text::borrowed(&row.turn_id),
        told.as_str(),
    ).is_some();
    Ok(Settled { moved: true, event_new })
}

// ---------------------------------------------------------------- quota

/// An assignment that waits for quota.
pub open spec fn parked(resume_at: Seq<char>, why: Seq<char>, now: Seq<char>) -> spec_fn(AssignmentView) -> AssignmentView {
    |a: AssignmentView|
        (AssignmentView {
            status: "quota_blocked"@,
            resume_at: Some(resume_at),
            error: Some(why),
            conflict_since: None,
            updated_at: now,
            ..a
        })
}

/// An assignment whose quota is back: queued again, as the next re-send, without the turn that was
/// stopped.
pub open spec fn resumed(now: Seq<char>) -> spec_fn(AssignmentView) -> AssignmentView {
    |a: AssignmentView|
        (AssignmentView {
            status: "queued"@,
            quota_retries: table::bumped(a.quota_retries),
            resume_at: None,
            turn_id: None,
            delivery: None,
            next_attempt_at: None,
            attempts: 0,
            updated_at: now,
            ..a
        })
}

/// What running out of quota comes to, and the store afterwards.
pub open spec fn parking(
    s: StoreView,
    now: Seq<char>,
    event_id: Seq<char>,
    id: Seq<char>,
    resume_at: Seq<char>,
    why: Seq<char>,
    event_key: Seq<char>,
    payload: Seq<char>,
) -> (Settled, StoreView) {
    let after = table::changed(s.assignments, flying(id), parked(resume_at, why, now));
    let row = table::first(after, with_id(id))->0;
    let event = inbox::fresh_event(
        event_id,
        event_key,
        "assignment_quota_blocked"@,
        Some(id),
        Some(row.target_bot_id),
        row.turn_id,
        payload,
        now,
    );
    if !table::any(s.assignments, flying(id)) {
        (Settled { moved: false, event_new: false }, s)
    } else {
        (
            Settled { moved: true, event_new: !table::any(s.inbox, inbox::known_event(event_id, event_key)) },
            StoreView { assignments: after, inbox: inbox::with_event(s.inbox, event), ..s },
        )
    }
}

/// What getting quota back comes to, and the store afterwards.
pub open spec fn resuming(
    s: StoreView,
    now: Seq<char>,
    event_id: Seq<char>,
    id: Seq<char>,
    event_key: Seq<char>,
    payload: Seq<char>,
) -> (Settled, StoreView) {
    let hit = at(id, "quota_blocked"@);
    let after = table::changed(s.assignments, hit, resumed(now));
    let row = table::first(after, with_id(id))->0;
    let event = inbox::fresh_event(
        event_id,
        event_key,
        "assignment_quota_resumed"@,
        Some(id),
        Some(row.target_bot_id),
        None,
        payload,
        now,
    );
    if !table::any(s.assignments, hit) {
        (Settled { moved: false, event_new: false }, s)
    } else {
        (
            Settled { moved: true, event_new: !table::any(s.inbox, inbox::known_event(event_id, event_key)) },
            StoreView { assignments: after, inbox: inbox::with_event(s.inbox, event), ..s },
        )
    }
}

/// Out of quota: park the assignment and tell the manager, both or neither. This is no failure; the
/// quota comes back by itself and the assignment is sent again.
pub fn park_quota_blocked(
    s: &mut Store,
    now: &str,
    event_id: &str,
    id: &str,
    resume_at: &str,
    why: &str,
    event_key: &str,
    payload: &str,
) -> (res: Settled)
    ensures
        (res, final(s)@) == parking(old(s)@, now@, event_id@, id@, resume_at@, why@, event_key@, payload@),
{
    if !some_flying(s, id) {
        return Settled { moved: false, event_new: false };
    }
    let ghost to = parked(resume_at@, why@, now@);
    let ghost was = s@.assignments;
    proof {
        let i = choose|i: int| 0 <= i < was.len() && (flying(id@))(#[trigger] was[i]);
        assert((with_id(id@))(was[i]));
        table::first_is_a_hit(was, with_id(id@));
        table::first_of_changed(was, with_id(id@), flying(id@), to);
    }
    let row = match assignment(s, id) {
        Some(a) => a,
        None => {
            assert(false);
            return Settled { moved: false, event_new: false };
        },
    };
    table::change(
        &mut s.assignments,
        |a: &Assignment| -> (b: bool)
            ensures b == (flying(id@))(a@)
            { has_id(a, id) && a.is_executing() },
        |a: &Assignment| -> (x: Assignment)
            ensures x@ == (parked(resume_at@, why@, now@))(a@)
            {
                Assignment {
                    status: "quota_blocked".to_owned(),
                    resume_at: Some(resume_at.to_owned()),
                    error: Some(why.to_owned()),
                    conflict_since: None,
                    updated_at: now.to_owned(),
                    ..a.copied()
                }
            },
        Ghost(flying(id@)),
        Ghost(to),
    );
    let event_new = inbox::push_inbox(
        s,
        now,
        event_id,
        event_key,
        "assignment_quota_blocked",
        Some(id),
        Some(row.target_bot_id.as_str()),
        text::borrowed(&row.turn_id),
        payload,
    ).is_some();
    Settled { moved: true, event_new }
}

/// The quota is back: queue the assignment again as its next re-send, and tell the manager, both or
/// neither. An assignment that was decided meanwhile stays decided, and nobody is told.
pub fn resume_quota_blocked(
    s: &mut Store,
    now: &str,
    event_id: &str,
    id: &str,
    event_key: &str,
    payload: &str,
) -> (res: Settled)
    ensures
        (res, final(s)@) == resuming(old(s)@, now@, event_id@, id@, event_key@, payload@),
{
    let ghost hit = at(id@, "quota_blocked"@);
    let ghost was = s@.assignments;
    proof {
        table::first_is_a_hit(was, hit);
    }
    let waiting = table::find(&s.assignments, |a: &Assignment| -> (b: bool)
        ensures b == (at(id@, "quota_blocked"@))(a@)
        { has_id(a, id) && text::same(a.status.as_str(), "quota_blocked") }, Ghost(hit)).is_some();
    if !waiting {
        return Settled { moved: false, event_new: false };
    }
    proof {
        let i = choose|i: int| 0 <= i < was.len() && hit(#[trigger] was[i]);
        assert((with_id(id@))(was[i]));
        table::first_is_a_hit(was, with_id(id@));
        table::first_of_changed(was, with_id(id@), hit, resumed(now@));
    }
    let row = match assignment(s, id) {
        Some(a) => a,
        None => {
            assert(false);
            return Settled { moved: false, event_new: false };
        },
    };
    table::change(
        &mut s.assignments,
        |a: &Assignment| -> (b: bool)
            ensures b == (at(id@, "quota_blocked"@))(a@)
            { has_id(a, id) && text::same(a.status.as_str(), "quota_blocked") },
        |a: &Assignment| -> (x: Assignment)
            ensures x@ == (resumed(now@))(a@)
            {
                Assignment {
                    status: "queued".to_owned(),
                    quota_retries: table::bump(a.quota_retries),
                    resume_at: None,
                    turn_id: None,
                    delivery: None,
                    next_attempt_at: None,
                    attempts: 0,
                    updated_at: now.to_owned(),
                    ..a.copied()
                }
            },
        Ghost(hit),
        Ghost(resumed(now@)),
    );
    let event_new = inbox::push_inbox(
        s,
        now,
        event_id,
        event_key,
        "assignment_quota_resumed",
        Some(id),
        Some(row.target_bot_id.as_str()),
        None,
        payload,
    ).is_some();
    Settled { moved: true, event_new }
}

// ---------------------------------------------------------------- the startup sweep

/// The event reports the end of this assignment's turn.
pub open spec fn reports_end_of(id: Seq<char>) -> spec_fn(InboxEventView) -> bool {
    |e: InboxEventView|
        e.assignment_id == Some(id) && (e.kind == "assignment_completed"@ || e.kind == "assignment_failed"@)
}

/// An assignment that waits for a decision nobody was asked for.
pub open spec fn unreported(inbox: Seq<InboxEventView>) -> spec_fn(AssignmentView) -> bool {
    |a: AssignmentView|
        a.supervisor_id == "AGM"@ && a.status == "awaiting_review"@ && a.legacy_closed == 0 && !table::any(
            inbox,
            reports_end_of(a.id),
        )
}

/// At most `limit` assignments that wait for a decision nobody was asked for, the longest idle first.
pub open spec fn unreported_list(rows: Seq<AssignmentView>, inbox: Seq<InboxEventView>, limit: int) -> Seq<AssignmentView> {
    table::limited(table::ordered(rows.filter(unreported(inbox)), idle_longer()), limit)
}

/// Assignments whose turn ended and whose notification never made it into the inbox.
pub fn settled_without_event(s: &Store, limit: i64) -> (r: Vec<Assignment>)
    ensures
        table::views(r@) == unreported_list(s@.assignments, s@.inbox, limit as int),
{
    let rows = table::select(&s.assignments, |a: &Assignment| -> (b: bool)
        ensures b == (unreported(s@.inbox))(a@)
        { is_unreported(s, a) }, Ghost(unreported(s@.inbox)));
    let sorted = table::arrange(rows, |a: &Assignment, b: &Assignment| -> (c: bool)
        ensures c == (idle_longer())(a@, b@)
        { text::precedes(a.updated_at.as_str(), b.updated_at.as_str()) }, Ghost(idle_longer()));
    table::limit(sorted, limit)
}

fn is_unreported(s: &Store, a: &Assignment) -> (b: bool)
    ensures
        b == (unreported(s@.inbox))(a@),
{
    if !ours(a) || !text::same(a.status.as_str(), "awaiting_review") || a.legacy_closed != 0 {
        return false;
    }
    let id = a.id.as_str();
    proof {
        table::first_is_a_hit(s@.inbox, reports_end_of(id@));
    }
    table::find(&s.inbox, |e: &InboxEvent| -> (c: bool)
        ensures c == (reports_end_of(id@))(e@)
        {
            text::is_text(&e.assignment_id, id) && (text::same(e.kind.as_str(), "assignment_completed") || text::same(
                e.kind.as_str(),
                "assignment_failed",
            ))
        }, Ghost(reports_end_of(id@))).is_none()
}

// ---------------------------------------------------------------- laws

/// No status is in flight and decided, waiting for quota and decided, or in flight and waiting.
proof fn statuses_apart()
    ensures
        forall|st: Seq<char>| #[trigger] assignment_state::decided(st) ==> !assignment_state::in_flight(st) && st
            != "quota_blocked"@ && st != "queued"@ && st != "delivered"@,
        !assignment_state::in_flight("awaiting_review"@),
        !assignment_state::in_flight("completed"@),
        !assignment_state::in_flight("quota_blocked"@),
        "queued"@ != "quota_blocked"@,
{
    reveal_strlit("queued");
    reveal_strlit("delivered");
    reveal_strlit("unknown");
    reveal_strlit("awaiting_review");
    reveal_strlit("quota_blocked");
    reveal_strlit("completed");
    reveal_strlit("failed");
    reveal_strlit("cancelled");
    reveal_strlit("superseded");
    assert("queued"@.len() == 6 && "delivered"@.len() == 9 && "unknown"@.len() == 7);
    assert("awaiting_review"@.len() == 15 && "quota_blocked"@.len() == 13);
    assert("completed"@.len() == 9 && "failed"@.len() == 6 && "cancelled"@.len() == 9 && "superseded"@.len() == 10);
    assert("completed"@[0] == 'c' && "delivered"@[0] == 'd' && "cancelled"@[0] == 'c');
    assert("failed"@[0] == 'f' && "queued"@[0] == 'q');
}

/// What was decided is not revived: a late delivery, hold, retry, refusal, block, end of turn, quota
/// stop, resume or extension leaves a decided assignment exactly as it is.
pub proof fn a_decided_assignment_is_never_moved(
    rows: Seq<AssignmentView>,
    i: int,
    id: Seq<char>,
    to: spec_fn(AssignmentView) -> AssignmentView,
)
    requires
        0 <= i < rows.len(),
        assignment_state::decided(rows[i].status),
    ensures
        table::changed(rows, flying(id), to)[i] == rows[i],
        table::changed(rows, at(id, "queued"@), to)[i] == rows[i],
        table::changed(rows, at(id, "delivered"@), to)[i] == rows[i],
        table::changed(rows, at(id, "quota_blocked"@), to)[i] == rows[i],
        table::changed(rows, window_held(), to)[i] == rows[i],
{
    statuses_apart();
}

/// Every move the daemon makes on its own is a legal one.
pub proof fn the_daemon_only_makes_legal_moves(a: AssignmentView, id: Seq<char>, x: Seq<char>, y: Seq<char>, now: Seq<char>)
    ensures
        (flying(id))(a) ==> assignment_state::legal(a.status, (sent(x, y, now))(a).status),
        (flying(id))(a) ==> assignment_state::legal(a.status, (parked(x, y, now))(a).status),
        (at(id, "queued"@))(a) ==> assignment_state::legal(a.status, (stuck(x, now))(a).status),
        (at(id, "delivered"@))(a) ==> assignment_state::legal(a.status, (stale(x, now))(a).status),
        (at(id, "quota_blocked"@))(a) ==> assignment_state::legal(a.status, (resumed(now))(a).status),
        forall|evidence: bool, result: Option<Seq<char>>, error: Option<Seq<char>>|
            (flying(id))(a) ==> assignment_state::legal(a.status, (#[trigger] ended(x, evidence, result, error, now))(a).status),
{
}

/// Settling is done once: after the end of a turn was recorded, recording an end again, of whatever
/// kind, finds nothing in flight.
pub proof fn a_settled_assignment_is_not_settled_again(
    rows: Seq<AssignmentView>,
    id: Seq<char>,
    turn_status: Seq<char>,
    evidence_complete: bool,
    result: Option<Seq<char>>,
    error: Option<Seq<char>>,
    now: Seq<char>,
)
    ensures
        !table::any(
            table::changed(rows, flying(id), ended(turn_status, evidence_complete, result, error, now)),
            flying(id),
        ),
{
    statuses_apart();
    let after = table::changed(rows, flying(id), ended(turn_status, evidence_complete, result, error, now));
    assert forall|i: int| 0 <= i < after.len() implies !(flying(id))(#[trigger] after[i]) by {
        assert(after[i] == if (flying(id))(rows[i]) {
            (ended(turn_status, evidence_complete, result, error, now))(rows[i])
        } else {
            rows[i]
        });
    }
}

/// Parking is done once, and what is parked is exactly what a resume finds.
pub proof fn a_parked_assignment_can_be_resumed(
    rows: Seq<AssignmentView>,
    id: Seq<char>,
    resume_at: Seq<char>,
    why: Seq<char>,
    now: Seq<char>,
)
    requires
        table::any(rows, flying(id)),
    ensures
        !table::any(table::changed(rows, flying(id), parked(resume_at, why, now)), flying(id)),
        table::any(table::changed(rows, flying(id), parked(resume_at, why, now)), at(id, "quota_blocked"@)),
{
    statuses_apart();
    let after = table::changed(rows, flying(id), parked(resume_at, why, now));
    assert forall|i: int| 0 <= i < after.len() implies !(flying(id))(#[trigger] after[i]) by {
        assert(after[i] == if (flying(id))(rows[i]) {
            (parked(resume_at, why, now))(rows[i])
        } else {
            rows[i]
        });
    }
    let i = choose|i: int| 0 <= i < rows.len() && (flying(id))(#[trigger] rows[i]);
    assert((at(id, "quota_blocked"@))(after[i]));
}

/// A resume is done once: what was resumed waits for quota no more.
pub proof fn a_resumed_assignment_is_not_resumed_again(rows: Seq<AssignmentView>, id: Seq<char>, now: Seq<char>)
    ensures
        !table::any(table::changed(rows, at(id, "quota_blocked"@), resumed(now)), at(id, "quota_blocked"@)),
{
    statuses_apart();
    let hit = at(id, "quota_blocked"@);
    let after = table::changed(rows, hit, resumed(now));
    assert forall|i: int| 0 <= i < after.len() implies !hit(#[trigger] after[i]) by {
        assert(after[i] == if hit(rows[i]) {
            (resumed(now))(rows[i])
        } else {
            rows[i]
        });
    }
}

/// Two re-sends of one assignment go out under different request ids, and neither is that of the
/// first delivery.
pub proof fn every_resend_has_its_own_request_id(a: AssignmentView, b: AssignmentView)
    requires
        a.client_request_id == b.client_request_id,
        a.quota_retries >= 0,
        b.quota_retries >= 0,
        a.quota_retries != b.quota_retries,
    ensures
        delivery_request_id(a) != delivery_request_id(b),
{
    reveal_strlit("#r");
    let base = a.client_request_id;
    let x = delivery_request_id(a);
    let y = delivery_request_id(b);
    if x == y {
        if a.quota_retries == 0 {
            assert(y.len() > base.len());
        } else if b.quota_retries == 0 {
            assert(x.len() > base.len());
        } else {
            let da = text::decimal(a.quota_retries as int);
            let db = text::decimal(b.quota_retries as int);
            assert(x.skip(base.len() as int + 2) =~= da);
            assert(y.skip(base.len() as int + 2) =~= db);
            text::digits_name_the_number(a.quota_retries as nat, b.quota_retries as nat);
        }
    }
}

/// A hold does not cost an attempt, and ends the streak of refusals.
pub proof fn waiting_out_a_window_costs_nothing(a: AssignmentView, until: Seq<char>, why: Seq<char>, now: Seq<char>)
    ensures
        (held(until, why, now))(a).attempts == a.attempts,
        (held(until, why, now))(a).conflict_since is None,
        (held(until, why, now))(a).status == a.status,
{
}

/// What is written down is what was handed out: to this bot, under this request id, in these words, with
/// exactly these files or modules to own, for this mission and this role to decide on. It waits to be sent,
/// and nobody has tried yet. It is the last assignment, and nothing else changes. An id or a request id
/// that is taken writes nothing.
///
/// That a list of files is read back as it was written is what the column rests on.
pub proof fn work_is_written_down_as_it_was_handed_out(
    s: StoreView,
    now: Seq<char>,
    id: Seq<char>,
    request_id: Option<Seq<char>>,
    target_bot_id: Seq<char>,
    crid: Seq<char>,
    words: Seq<char>,
    ownership: Seq<Seq<char>>,
    follow_up_of: Option<Seq<char>>,
    expects_review: bool,
    mission_id: Option<Seq<char>>,
    mission_role: Option<Seq<char>>,
    review_role: Option<Seq<char>>,
)
    requires
        ownership.len() > 0 ==> json::json_strings(json::json_list(ownership)) == Some(ownership),
    ensures
        ({
            let (got, after) = inserting(
                s,
                now,
                id,
                request_id,
                target_bot_id,
                crid,
                words,
                ownership,
                follow_up_of,
                expects_review,
                mission_id,
                mission_role,
                review_role,
            );
            let id_there = exists|i: int| 0 <= i < s.assignments.len() && (#[trigger] s.assignments[i]).id == id;
            let request_there = exists|i: int|
                0 <= i < s.assignments.len() && (#[trigger] s.assignments[i]).supervisor_id == "AGM"@
                    && s.assignments[i].client_request_id == crid;
            &&& got is Ok <==> !id_there && !request_there
            &&& id_there ==> got == Err::<AssignmentView, StoreError>(StoreError::IdTaken)
            &&& !id_there && request_there ==> got == Err::<AssignmentView, StoreError>(StoreError::RequestIdTaken)
            &&& got is Err ==> after == s
            &&& got matches Ok(a) ==> {
                &&& after == (StoreView { assignments: s.assignments.push(a), ..s })
                &&& owned_parts(a) == ownership
                &&& a == (AssignmentView {
                    id,
                    supervisor_id: "AGM"@,
                    request_id,
                    target_bot_id,
                    client_request_id: crid,
                    turn_id: None,
                    text: words,
                    status: "queued"@,
                    delivery: None,
                    result: None,
                    error: None,
                    attempts: 0,
                    next_attempt_at: None,
                    created_at: now,
                    updated_at: now,
                    completed_at: None,
                    turn_status: None,
                    evidence_complete: None,
                    reviewed_at: None,
                    reviewed_by: None,
                    review_decision: None,
                    review_reason: None,
                    followup_assignment_id: None,
                    follow_up_of,
                    legacy_closed: 0,
                    ownership_json: a.ownership_json,
                    expects_review: a.expects_review,
                    resume_at: None,
                    quota_retries: 0,
                    mission_id,
                    mission_role,
                    turn_error: None,
                    review_role,
                    conflict_since: None,
                })
                &&& a.expects_review != 0 <==> expects_review
            }
        }),
{
    let by_id = with_id(id);
    let by_request = with_crid(crid);
    if table::any(s.assignments, by_id) {
        let i = choose|i: int| 0 <= i < s.assignments.len() && by_id(#[trigger] s.assignments[i]);
        assert(s.assignments[i].id == id);
    } else {
        assert forall|i: int| 0 <= i < s.assignments.len() implies (#[trigger] s.assignments[i]).id != id by {
            assert(!by_id(s.assignments[i]));
        }
    }
    if table::any(s.assignments, by_request) {
        let i = choose|i: int| 0 <= i < s.assignments.len() && by_request(#[trigger] s.assignments[i]);
        assert(s.assignments[i].supervisor_id == "AGM"@ && s.assignments[i].client_request_id == crid);
    } else {
        assert forall|i: int| 0 <= i < s.assignments.len() implies !((#[trigger] s.assignments[i]).supervisor_id == "AGM"@
            && s.assignments[i].client_request_id == crid) by {
            assert(!by_request(s.assignments[i]));
        }
    }
    assert(ownership.len() == 0 ==> ownership =~= seq![]);
}

/// What becomes of an assignment on its way out, row by row. A delivery is recorded on what is in flight:
/// with its turn, as one more attempt, and as unknown only where it may not have landed. A hold, a failed
/// delivery and a refusal each put off what is queued; only the hold costs no attempt, and a streak of
/// refusals is remembered from its first. What cannot be handed over is blocked from the queue, what waits
/// too long in a bot's queue is blocked where it is, and a wait for quota that is put off counts as a
/// try. No other assignment is touched.
pub proof fn each_step_of_a_delivery_is_written_on_its_assignment(
    rows: Seq<AssignmentView>,
    i: int,
    id: Seq<char>,
    x: Seq<char>,
    y: Seq<char>,
    now: Seq<char>,
)
    requires
        0 <= i < rows.len(),
    ensures
        ({
            let was = rows[i];
            let mine = was.id == id;
            let in_flight = was.status == "queued"@ || was.status == "delivered"@ || was.status == "unknown"@;
            let once_more = if was.attempts < i64::MAX {
                (was.attempts + 1) as i64
            } else {
                i64::MAX
            };
            &&& gone_out(rows, id, x, y, now).1[i] == if mine && in_flight {
                AssignmentView {
                    turn_id: Some(x),
                    delivery: Some(y),
                    status: if y == "unknown"@ {
                        "unknown"@
                    } else {
                        "delivered"@
                    },
                    attempts: once_more,
                    next_attempt_at: None,
                    conflict_since: None,
                    updated_at: now,
                    ..was
                }
            } else {
                was
            }
            &&& mine && in_flight ==> gone_out(rows, id, x, y, now).0
            &&& put_on_hold(rows, id, x, y, now)[i] == if mine && was.status == "queued"@ {
                AssignmentView {
                    next_attempt_at: Some(x),
                    error: Some(y),
                    conflict_since: None,
                    updated_at: now,
                    ..was
                }
            } else {
                was
            }
            &&& deferred(rows, id, x, y, now)[i] == if mine && was.status == "queued"@ {
                AssignmentView {
                    attempts: once_more,
                    next_attempt_at: Some(x),
                    error: Some(y),
                    updated_at: now,
                    ..was
                }
            } else {
                was
            }
            &&& turned_away(rows, id, x, y, now)[i] == if mine && was.status == "queued"@ {
                AssignmentView {
                    attempts: once_more,
                    next_attempt_at: Some(x),
                    error: Some(y),
                    conflict_since: match was.conflict_since {
                        Some(t) => Some(t),
                        None => Some(now),
                    },
                    updated_at: now,
                    ..was
                }
            } else {
                was
            }
            &&& given_up(rows, id, x, now).1[i] == if mine && was.status == "queued"@ {
                AssignmentView {
                    status: "blocked"@,
                    error: Some(x),
                    next_attempt_at: None,
                    updated_at: now,
                    ..was
                }
            } else {
                was
            }
            &&& mine && was.status == "queued"@ ==> given_up(rows, id, x, now).0
            &&& blocked_in_queue(rows, id, x, now).1[i] == if mine && was.status == "delivered"@ {
                AssignmentView { status: "blocked"@, error: Some(x), updated_at: now, ..was }
            } else {
                was
            }
            &&& mine && was.status == "delivered"@ ==> blocked_in_queue(rows, id, x, now).0
            &&& put_off(rows, id, x, now)[i] == if mine && was.status == "quota_blocked"@ {
                AssignmentView {
                    resume_at: Some(x),
                    quota_retries: if was.quota_retries < i64::MAX {
                        (was.quota_retries + 1) as i64
                    } else {
                        i64::MAX
                    },
                    updated_at: now,
                    ..was
                }
            } else {
                was
            }
            &&& mission_linked(rows, id, x, y, now)[i] == if mine {
                AssignmentView { mission_id: Some(x), mission_role: Some(y), updated_at: now, ..was }
            } else {
                was
            }
            &&& turn_failed(rows, id, x)[i] == if mine {
                AssignmentView { turn_error: Some(x), ..was }
            } else {
                was
            }
        }),
{
    if (flying(id))(rows[i]) {
        assert(table::any(rows, flying(id)));
    }
    if (at(id, "queued"@))(rows[i]) {
        assert(table::any(rows, at(id, "queued"@)));
    }
    if (at(id, "delivered"@))(rows[i]) {
        assert(table::any(rows, at(id, "delivered"@)));
    }
}

/// Nothing is said to have moved that was not where it could move from.
pub proof fn a_step_that_finds_nothing_says_so(rows: Seq<AssignmentView>, id: Seq<char>, x: Seq<char>, y: Seq<char>, now: Seq<char>)
    ensures
        gone_out(rows, id, x, y, now).0 <==> exists|i: int|
            0 <= i < rows.len() && (#[trigger] rows[i]).id == id && (rows[i].status == "queued"@ || rows[i].status
                == "delivered"@ || rows[i].status == "unknown"@),
        given_up(rows, id, x, now).0 <==> exists|i: int|
            0 <= i < rows.len() && (#[trigger] rows[i]).id == id && rows[i].status == "queued"@,
        blocked_in_queue(rows, id, x, now).0 <==> exists|i: int|
            0 <= i < rows.len() && (#[trigger] rows[i]).id == id && rows[i].status == "delivered"@,
        gone_out(rows, id, x, y, now).1.len() == rows.len(),
        given_up(rows, id, x, now).1.len() == rows.len(),
        blocked_in_queue(rows, id, x, now).1.len() == rows.len(),
{
    let f = flying(id);
    let q = at(id, "queued"@);
    let d = at(id, "delivered"@);
    if table::any(rows, f) {
        let i = choose|i: int| 0 <= i < rows.len() && f(#[trigger] rows[i]);
        assert(rows[i].id == id);
    } else {
        assert forall|i: int| 0 <= i < rows.len() implies !f(#[trigger] rows[i]) by {
        }
    }
    if table::any(rows, q) {
        let i = choose|i: int| 0 <= i < rows.len() && q(#[trigger] rows[i]);
        assert(rows[i].id == id);
    } else {
        assert forall|i: int| 0 <= i < rows.len() implies !q(#[trigger] rows[i]) by {
        }
    }
    if table::any(rows, d) {
        let i = choose|i: int| 0 <= i < rows.len() && d(#[trigger] rows[i]);
        assert(rows[i].id == id);
    } else {
        assert forall|i: int| 0 <= i < rows.len() implies !d(#[trigger] rows[i]) by {
        }
    }
}

/// When a turn ends, its assignment waits for a decision, whatever the outcome, and somebody is told; only
/// a notice whose turn ended well is closed on the spot, and then nobody has to review it. What the turn
/// gave is on record: its status, its result and its error where there is one, whether the evidence is
/// complete, and when. The event names the assignment, its bot and its turn, and is new unless its id or
/// key is known. What is not in flight any more is left alone, and nobody is told.
pub proof fn the_end_of_a_turn_is_recorded_and_told(
    s: StoreView,
    now: Seq<char>,
    event_id: Seq<char>,
    id: Seq<char>,
    turn_status: Seq<char>,
    evidence_complete: bool,
    result: Option<Seq<char>>,
    error: Option<Seq<char>>,
    event_key: Seq<char>,
    kind: Seq<char>,
    payload: Seq<char>,
    was: AssignmentView,
    i: int,
)
    requires
        table::first(s.assignments, with_id(id)) == Some(was),
        forall|a: int, b: int|
            0 <= a < b < s.assignments.len() ==> (#[trigger] s.assignments[a]).id != (#[trigger] s.assignments[b]).id,
        0 <= i < s.assignments.len(),
    ensures
        ({
            let (got, after) = settling(
                s,
                now,
                event_id,
                id,
                turn_status,
                evidence_complete,
                result,
                error,
                event_key,
                kind,
                payload,
            );
            let in_flight = (was.status == "queued"@ || was.status == "delivered"@ || was.status == "unknown"@);
            let well = turn_status == "completed"@ || turn_status == "completed_fallback"@;
            let notice = well && was.expects_review == 0;
            let words = if notice {
                match json::json_with_bool(payload, "needs_review"@, false) {
                    Some(p) => json::json_with_str(p, "kind"@, "notice"@),
                    None => None,
                }
            } else {
                Some(payload)
            };
            let known = exists|k: int|
                0 <= k < s.inbox.len() && ((#[trigger] s.inbox[k]).event_key == event_key || s.inbox[k].id == event_id);
            let is = after.assignments[i];
            &&& !in_flight ==> got == Ok::<Settled, StoreError>(Settled { moved: false, event_new: false }) && after == s
            &&& in_flight && words is None ==> got == Err::<Settled, StoreError>(StoreError::PayloadNotAnObject) && after == s
            &&& in_flight && words is Some ==> {
                &&& got == Ok::<Settled, StoreError>(Settled { moved: true, event_new: !known })
                &&& after == (StoreView { assignments: after.assignments, inbox: after.inbox, ..s })
                &&& after.assignments.len() == s.assignments.len()
                &&& s.assignments[i].id != id ==> is == s.assignments[i]
                &&& s.assignments[i].id == id ==> is == (AssignmentView {
                    status: if notice {
                        "completed"@
                    } else {
                        "awaiting_review"@
                    },
                    turn_status: Some(turn_status),
                    evidence_complete: Some(
                        if evidence_complete {
                            1i64
                        } else {
                            0i64
                        },
                    ),
                    result: match result {
                        Some(t) => Some(t),
                        None => was.result,
                    },
                    error: match error {
                        Some(t) => Some(t),
                        None => was.error,
                    },
                    completed_at: Some(now),
                    updated_at: now,
                    ..was
                })
                &&& known ==> after.inbox == s.inbox
                &&& !known ==> {
                    let e = after.inbox.last();
                    &&& after.inbox.len() == s.inbox.len() + 1
                    &&& after.inbox.drop_last() == s.inbox
                    &&& e.id == event_id && e.event_key == event_key
                    &&& e.kind == if notice {
                        "assignment_noticed"@
                    } else {
                        kind
                    }
                    &&& e.assignment_id == Some(id) && e.bot_id == Some(was.target_bot_id) && e.turn_id == was.turn_id
                    &&& e.payload_json == words->0
                    &&& e.state == "pending"@ && e.created_at == now && e.updated_at == now
                    &&& e.role is None && e.claimed_by is None && e.acked_by is None && e.merged_into is None
                    &&& e.notify_attempts == 0
                }
            }
        }),
{
    statuses_apart();
    let to = ended(turn_status, evidence_complete, result, error, now);
    reveal_strlit("completed");
    reveal_strlit("awaiting_review");
    assert("completed"@.len() == 9 && "awaiting_review"@.len() == 15);
    only_this_one(s.assignments, id, was, i);
    table::first_of_changed(s.assignments, with_id(id), flying(id), to);
    event_is_known_or_last(s.inbox, event_id, event_key);
    let ev = settling(s, now, event_id, id, turn_status, evidence_complete, result, error, event_key, kind, payload).1.inbox;
    if ev.len() > s.inbox.len() {
        assert(ev.drop_last() =~= s.inbox);
    }
}

proof fn only_this_one(rows: Seq<AssignmentView>, id: Seq<char>, was: AssignmentView, i: int)
    requires
        table::first(rows, with_id(id)) == Some(was),
        forall|a: int, b: int| 0 <= a < b < rows.len() ==> (#[trigger] rows[a]).id != (#[trigger] rows[b]).id,
        0 <= i < rows.len(),
    ensures
        was.id == id,
        rows[i].id == id ==> rows[i] == was,
        table::any(rows, flying(id)) <==> assignment_state::in_flight(was.status),
        forall|st: Seq<char>| #[trigger] table::any(rows, at(id, st)) <==> was.status == st,
{
    table::first_is_a_hit(rows, with_id(id));
    let k = choose|k: int| 0 <= k < rows.len() && rows[k] == was && (with_id(id))(#[trigger] rows[k]);
    if rows[i].id == id {
        assert(i == k);
    }
    if assignment_state::in_flight(was.status) {
        assert((flying(id))(rows[k]));
    }
    if table::any(rows, flying(id)) {
        let m = choose|m: int| 0 <= m < rows.len() && (flying(id))(#[trigger] rows[m]);
        assert(m == k);
    }
    assert forall|st: Seq<char>| #[trigger] table::any(rows, at(id, st)) <==> was.status == st by {
        if was.status == st {
            assert((at(id, st))(rows[k]));
        }
        if table::any(rows, at(id, st)) {
            let m = choose|m: int| 0 <= m < rows.len() && (at(id, st))(#[trigger] rows[m]);
            assert(m == k);
        }
    }
}

proof fn event_is_known_or_last(events: Seq<InboxEventView>, event_id: Seq<char>, event_key: Seq<char>)
    ensures
        table::any(events, inbox::known_event(event_id, event_key)) <==> exists|k: int|
            0 <= k < events.len() && ((#[trigger] events[k]).event_key == event_key || events[k].id == event_id),
{
    let hit = inbox::known_event(event_id, event_key);
    if table::any(events, hit) {
        let k = choose|k: int| 0 <= k < events.len() && hit(#[trigger] events[k]);
        assert(events[k].event_key == event_key || events[k].id == event_id);
    } else {
        assert forall|k: int| 0 <= k < events.len() implies !hit(#[trigger] events[k]) by {
        }
    }
}

/// Out of quota, what is in flight is parked until the time that is given, with the reason, and keeps
/// everything else; getting quota back queues exactly what is parked again, as the next re-send, without
/// its turn and with its attempts counted anew. Each is told in an event of its own kind.
pub proof fn quota_parks_and_resumes_an_assignment(
    s: StoreView,
    now: Seq<char>,
    event_id: Seq<char>,
    id: Seq<char>,
    resume_at: Seq<char>,
    why: Seq<char>,
    event_key: Seq<char>,
    payload: Seq<char>,
    was: AssignmentView,
    i: int,
)
    requires
        table::first(s.assignments, with_id(id)) == Some(was),
        forall|a: int, b: int|
            0 <= a < b < s.assignments.len() ==> (#[trigger] s.assignments[a]).id != (#[trigger] s.assignments[b]).id,
        0 <= i < s.assignments.len(),
    ensures
        ({
            let (stopped, down) = parking(s, now, event_id, id, resume_at, why, event_key, payload);
            let (back, up) = resuming(s, now, event_id, id, event_key, payload);
            let in_flight = (was.status == "queued"@ || was.status == "delivered"@ || was.status == "unknown"@);
            let waits = was.status == "quota_blocked"@;
            let known = exists|k: int|
                0 <= k < s.inbox.len() && ((#[trigger] s.inbox[k]).event_key == event_key || s.inbox[k].id == event_id);
            &&& stopped == (Settled { moved: in_flight, event_new: in_flight && !known })
            &&& back == (Settled { moved: waits, event_new: waits && !known })
            &&& !in_flight ==> down == s
            &&& !waits ==> up == s
            &&& down == (StoreView { assignments: down.assignments, inbox: down.inbox, ..s })
            &&& up == (StoreView { assignments: up.assignments, inbox: up.inbox, ..s })
            &&& down.assignments[i] == if in_flight && s.assignments[i].id == id {
                AssignmentView {
                    status: "quota_blocked"@,
                    resume_at: Some(resume_at),
                    error: Some(why),
                    conflict_since: None,
                    updated_at: now,
                    ..was
                }
            } else {
                s.assignments[i]
            }
            &&& up.assignments[i] == if waits && s.assignments[i].id == id {
                AssignmentView {
                    status: "queued"@,
                    quota_retries: if was.quota_retries < i64::MAX {
                        (was.quota_retries + 1) as i64
                    } else {
                        i64::MAX
                    },
                    resume_at: None,
                    turn_id: None,
                    delivery: None,
                    next_attempt_at: None,
                    attempts: 0,
                    updated_at: now,
                    ..was
                }
            } else {
                s.assignments[i]
            }
            &&& known ==> down.inbox == s.inbox && up.inbox == s.inbox
            &&& in_flight && !known ==> {
                let e = down.inbox.last();
                &&& down.inbox.len() == s.inbox.len() + 1 && down.inbox.drop_last() == s.inbox
                &&& e.id == event_id && e.event_key == event_key && e.kind == "assignment_quota_blocked"@
                &&& e.assignment_id == Some(id) && e.bot_id == Some(was.target_bot_id) && e.turn_id == was.turn_id
                &&& e.payload_json == payload && e.state == "pending"@ && e.created_at == now
            }
            &&& waits && !known ==> {
                let e = up.inbox.last();
                &&& up.inbox.len() == s.inbox.len() + 1 && up.inbox.drop_last() == s.inbox
                &&& e.id == event_id && e.event_key == event_key && e.kind == "assignment_quota_resumed"@
                &&& e.assignment_id == Some(id) && e.bot_id == Some(was.target_bot_id) && e.turn_id is None
                &&& e.payload_json == payload && e.state == "pending"@ && e.created_at == now
            }
        }),
{
    statuses_apart();
    only_this_one(s.assignments, id, was, i);
    table::first_of_changed(s.assignments, with_id(id), flying(id), parked(resume_at, why, now));
    table::first_of_changed(s.assignments, with_id(id), at(id, "quota_blocked"@), resumed(now));
    event_is_known_or_last(s.inbox, event_id, event_key);
    assert(table::any(s.assignments, at(id, "quota_blocked"@)) <==> was.status == "quota_blocked"@);
    let down = parking(s, now, event_id, id, resume_at, why, event_key, payload).1;
    let up = resuming(s, now, event_id, id, event_key, payload).1;
    if down.inbox.len() > s.inbox.len() {
        assert(down.inbox.drop_last() =~= s.inbox);
    }
    if up.inbox.len() > s.inbox.len() {
        assert(up.inbox.drop_last() =~= s.inbox);
    }
}

/// The first delivery goes out under the request id itself, and each re-send under the request id with its
/// number behind it.
pub proof fn a_resend_carries_its_number(a: AssignmentView)
    ensures
        a.quota_retries <= 0 ==> delivery_request_id(a) == a.client_request_id,
        a.quota_retries > 0 ==> delivery_request_id(a) == a.client_request_id + "#r"@ + text::decimal(a.quota_retries as int),
{
}

/// The work of a mission is every assignment that names it, in the order it was written down.
pub proof fn a_missions_work_is_listed_in_order(
    rows: Seq<AssignmentView>,
    mission_id: Seq<char>,
    x: AssignmentView,
    i: int,
    j: int,
)
    ensures
        ({
            let list = mission_list(rows, mission_id);
            let asked = x.mission_id == Some(mission_id);
            &&& list.contains(x) <==> rows.contains(x) && asked
            &&& 0 <= i < j < list.len() ==> !text::text_before(list[j].created_at, list[i].created_at)
        }),
{
    table::ranked_by_text(older(), |v: AssignmentView| v.created_at, true);
    table::listing(rows, in_mission(mission_id), older(), x, i, j);
}

/// A listing holds the supervisor's assignments, the latest first, up to the limit.
pub proof fn assignments_are_listed_newest_first(
    rows: Seq<AssignmentView>,
    limit: int,
    x: AssignmentView,
    i: int,
    j: int,
)
    ensures
        ({
            let list = latest(rows, limit);
            let asked = x.supervisor_id == "AGM"@;
            &&& list.contains(x) ==> rows.contains(x) && asked
            &&& limit >= 0 ==> list.len() <= limit
            &&& (limit < 0 || list.len() < limit) && rows.contains(x) && asked ==> list.contains(x)
            &&& 0 <= i < j < list.len() ==> !text::text_before(list[i].created_at, list[j].created_at)
            &&& rows.contains(x) && asked && !list.contains(x) && 0 <= i < list.len() ==> !text::text_before(list[i].created_at, x.created_at)
        }),
{
    table::ranked_by_text(newer(), |v: AssignmentView| v.created_at, false);
    table::listing_up_to(rows, all_ours(), newer(), limit, x, i, j);
}

/// The work list holds the supervisor's assignments that are queued, delivered or unknown.
pub proof fn what_the_daemon_can_move(
    rows: Seq<AssignmentView>,
    x: AssignmentView,
    i: int,
    j: int,
)
    ensures
        ({
            let list = open_list(rows);
            let asked = x.supervisor_id == "AGM"@ && (x.status == "queued"@ || x.status == "delivered"@ || x.status == "unknown"@);
            &&& list.contains(x) <==> rows.contains(x) && asked
            &&& 0 <= i < j < list.len() ==> !text::text_before(list[j].created_at, list[i].created_at)
        }),
{
    table::ranked_by_text(older(), |v: AssignmentView| v.created_at, true);
    table::listing(rows, executing(), older(), x, i, j);
}

/// Attention is owed to the supervisor's assignments that are in flight, wait for acceptance, are blocked
/// or wait for quota.
pub proof fn what_is_owed_attention(
    rows: Seq<AssignmentView>,
    x: AssignmentView,
    i: int,
    j: int,
)
    ensures
        ({
            let list = unsettled_list(rows);
            let asked = x.supervisor_id == "AGM"@ && (x.status == "queued"@ || x.status == "delivered"@ || x.status == "unknown"@
                || x.status == "awaiting_review"@ || x.status == "blocked"@ || x.status == "quota_blocked"@);
            &&& list.contains(x) <==> rows.contains(x) && asked
            &&& 0 <= i < j < list.len() ==> !text::text_before(list[j].created_at, list[i].created_at)
        }),
{
    table::ranked_by_text(older(), |v: AssignmentView| v.created_at, true);
    table::listing(rows, unsettled(), older(), x, i, j);
}

/// Work has never reached anybody while it is queued and has no turn; what was written down after the
/// cutoff is left out, what was written down at it is not.
pub proof fn what_never_reached_anybody(
    rows: Seq<AssignmentView>,
    cutoff: Seq<char>,
    x: AssignmentView,
    i: int,
    j: int,
)
    ensures
        ({
            let list = undelivered_list(rows, cutoff);
            let asked = x.supervisor_id == "AGM"@ && x.status == "queued"@ && x.turn_id is None && !text::text_before(cutoff, x.created_at);
            &&& list.contains(x) <==> rows.contains(x) && asked
            &&& 0 <= i < j < list.len() ==> !text::text_before(list[j].created_at, list[i].created_at)
        }),
{
    table::ranked_by_text(older(), |v: AssignmentView| v.created_at, true);
    table::listing(rows, undelivered_since(cutoff), older(), x, i, j);
}

/// Work stands still when it is in flight or waits for an acceptance that somebody owes, and was not
/// touched after the cutoff.
pub proof fn what_has_not_moved(
    rows: Seq<AssignmentView>,
    cutoff: Seq<char>,
    x: AssignmentView,
    i: int,
    j: int,
)
    ensures
        ({
            let list = idle_list(rows, cutoff);
            let asked = x.supervisor_id == "AGM"@ && !text::text_before(cutoff, x.updated_at) && (x.status == "queued"@ || x.status
                == "delivered"@ || x.status == "unknown"@ || (x.status == "awaiting_review"@ && x.expects_review != 0));
            &&& list.contains(x) <==> rows.contains(x) && asked
            &&& 0 <= i < j < list.len() ==> !text::text_before(list[j].updated_at, list[i].updated_at)
        }),
{
    statuses_apart();
    table::ranked_by_text(idle_longer(), |v: AssignmentView| v.updated_at, true);
    table::listing(rows, idle_since(cutoff), idle_longer(), x, i, j);
}

/// The supervisor's assignments that wait for quota are all listed.
pub proof fn what_waits_for_quota(
    rows: Seq<AssignmentView>,
    x: AssignmentView,
    i: int,
    j: int,
)
    ensures
        ({
            let list = quota_list(rows);
            let asked = x.supervisor_id == "AGM"@ && x.status == "quota_blocked"@;
            &&& list.contains(x) <==> rows.contains(x) && asked
            &&& 0 <= i < j < list.len() ==> !text::text_before(list[j].updated_at, list[i].updated_at)
        }),
{
    table::ranked_by_text(idle_longer(), |v: AssignmentView| v.updated_at, true);
    table::listing(rows, ours_in("quota_blocked"@), idle_longer(), x, i, j);
}

/// The sweep finds what waits for acceptance, was not closed long ago, and has no event in the inbox
/// that reports the end of its turn.
pub proof fn what_nobody_was_told(
    rows: Seq<AssignmentView>,
    inbox: Seq<InboxEventView>,
    limit: int,
    x: AssignmentView,
    i: int,
    j: int,
)
    ensures
        ({
            let list = unreported_list(rows, inbox, limit);
            let asked = x.supervisor_id == "AGM"@ && x.status == "awaiting_review"@ && x.legacy_closed == 0 && forall|k: int|
                0 <= k < inbox.len() ==> !((#[trigger] inbox[k]).assignment_id == Some(x.id) && (inbox[k].kind
                    == "assignment_completed"@ || inbox[k].kind == "assignment_failed"@));
            &&& list.contains(x) ==> rows.contains(x) && asked
            &&& limit >= 0 ==> list.len() <= limit
            &&& (limit < 0 || list.len() < limit) && rows.contains(x) && asked ==> list.contains(x)
            &&& 0 <= i < j < list.len() ==> !text::text_before(list[j].updated_at, list[i].updated_at)
        }),
{
    table::ranked_by_text(idle_longer(), |v: AssignmentView| v.updated_at, true);
    table::listing_up_to(rows, unreported(inbox), idle_longer(), limit, x, i, j);
    let told = reports_end_of(x.id);
    if table::any(inbox, told) {
        let k = choose|k: int| 0 <= k < inbox.len() && told(#[trigger] inbox[k]);
        assert(inbox[k].assignment_id == Some(x.id));
    } else {
        assert forall|k: int| 0 <= k < inbox.len() implies !told(#[trigger] inbox[k]) by {}
    }
}

/// What is owed is counted: the supervisor's open assignments, those among them that nobody decided,
/// and the open ones together with the events that nobody acked.
pub proof fn what_is_owed_is_counted(s: StoreView)
    ensures
        unsettled_count(s.assignments) == s.assignments.filter(
            |x: AssignmentView|
                x.supervisor_id == "AGM"@ && (x.status == "queued"@ || x.status == "delivered"@ || x.status == "unknown"@
                    || x.status == "awaiting_review"@ || x.status == "blocked"@ || x.status == "quota_blocked"@),
        ).len(),
        undecided_count(s.assignments) == s.assignments.filter(
            |x: AssignmentView| x.supervisor_id == "AGM"@ && x.status == "awaiting_review"@,
        ).len(),
        pending_total(s) == unsettled_count(s.assignments) + s.inbox.filter(
            |e: InboxEventView| e.state != "handled"@,
        ).len(),
{
    assert(unsettled() =~= |x: AssignmentView|
        x.supervisor_id == "AGM"@ && (x.status == "queued"@ || x.status == "delivered"@ || x.status == "unknown"@
            || x.status == "awaiting_review"@ || x.status == "blocked"@ || x.status == "quota_blocked"@));
    assert(ours_in("awaiting_review"@) =~= |x: AssignmentView|
        x.supervisor_id == "AGM"@ && x.status == "awaiting_review"@);
    assert(inbox::unhandled() =~= |e: InboxEventView| e.state != "handled"@);
}

/// What a restart window kept in the queue can go out at once when it is over: a queued assignment whose
/// error says so has no error, no next attempt and no conflict any more. Nothing else is touched, and
/// without any such assignment nothing is counted.
pub proof fn what_a_window_held_goes_out(rows: Seq<AssignmentView>, now: Seq<char>, until: Seq<char>, k: int)
    requires
        0 <= k < rows.len(),
    ensures
        ({
            let (n, after) = let_go(rows, now);
            let a = rows[k];
            let freed = AssignmentView { next_attempt_at: None, error: None, conflict_since: None, updated_at: now, ..a };
            &&& after.len() == rows.len()
            &&& a.status == "queued"@ && a.error == Some("restart window held until "@ + until) ==> after[k] == freed && n > 0
            &&& a.status != "queued"@ || a.error is None ==> after[k] == a
            &&& after[k] == a || (after[k] == freed && "restart window held until "@.is_prefix_of(a.error->0))
            &&& n == 0 ==> after == rows
            &&& n == rows.filter(
                |x: AssignmentView|
                    x.status == "queued"@ && x.error is Some && "restart window held until "@.is_prefix_of(x.error->0),
            ).len()
        }),
{
    let (n, after) = let_go(rows, now);
    let hit = window_held();
    assert(hit =~= (|x: AssignmentView|
        x.status == "queued"@ && x.error is Some && "restart window held until "@.is_prefix_of(x.error->0)));
    table::any_is_counted(rows, hit);
    if rows[k].status == "queued"@ && rows[k].error == Some("restart window held until "@ + until) {
        let e = rows[k].error->0;
        assert(e.subrange(0, hold_words().len() as int) =~= hold_words());
        assert(hit(rows[k]));
    }
    if n == 0 {
        assert forall|i: int| 0 <= i < rows.len() implies after[i] == rows[i] by {
            assert(!hit(rows[i]));
        }
        assert(after =~= rows);
    }
}

/// An assignment is found under its own id, under the id of the request that sent it out, and under its turn;
/// where none is there, none is found.
pub proof fn an_assignment_is_found_by_its_ids(
    rows: Seq<AssignmentView>,
    id: Seq<char>,
    crid: Seq<char>,
    turn_id: Seq<char>,
    k: int,
)
    requires
        0 <= k < rows.len(),
    ensures
        ({
            let by_id = table::first(rows, with_id(id));
            let by_crid = table::first(rows, with_crid(crid));
            let by_turn = table::first(rows, with_turn(turn_id));
            &&& by_id is Some ==> by_id->0.id == id && rows.contains(by_id->0)
            &&& rows[k].id == id ==> by_id is Some
            &&& by_crid is Some ==> by_crid->0.client_request_id == crid && by_crid->0.supervisor_id == "AGM"@ && rows.contains(
                by_crid->0,
            )
            &&& rows[k].client_request_id == crid && rows[k].supervisor_id == "AGM"@ ==> by_crid is Some
            &&& by_turn is Some ==> by_turn->0.turn_id == Some(turn_id) && rows.contains(by_turn->0)
            &&& rows[k].turn_id == Some(turn_id) ==> by_turn is Some
        }),
{
    table::first_is_a_hit(rows, with_id(id));
    table::first_is_a_hit(rows, with_crid(crid));
    table::first_is_a_hit(rows, with_turn(turn_id));
    if rows[k].id == id {
        assert((with_id(id))(rows[k]));
    }
    if rows[k].client_request_id == crid && rows[k].supervisor_id == "AGM"@ {
        assert((with_crid(crid))(rows[k]));
    }
    if rows[k].turn_id == Some(turn_id) {
        assert((with_turn(turn_id))(rows[k]));
    }
}

/// A mission that work is put under is named first, and the part in it second; without a mission there is
/// neither.
pub proof fn a_mission_comes_with_a_part(mission: Option<(&str, &str)>, id: &str, role: &str)
    ensures
        mission is None ==> mission_of(mission) is None && mission_role_of(mission) is None,
        mission == Some((id, role)) ==> mission_of(mission) == Some(id@) && mission_role_of(mission) == Some(role@),
{
}

} // verus!
