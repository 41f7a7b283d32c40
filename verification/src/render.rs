//! Rows as JSON: what the web page and the command line are shown.
use crate::assignment_state;
use crate::assignments;
use crate::json;
use crate::json::Field;
use crate::leases;
use crate::rows::{
    Approval, ApprovalView, Assignment, AssignmentView, Incident, IncidentView, InboxEvent, InboxEventView, Lease, LeaseView, RoleRow,
    RoleRowView,
};
use crate::table;
use crate::text;
use vstd::prelude::*;

verus! {

/// A flag, or null where it is not known.
pub open spec fn flag_view(o: Option<i64>) -> json::FieldView {
    match o {
        Some(n) => json::FieldView::Bool(n != 0),
        None => json::FieldView::Null,
    }
}

fn flag_or_null(o: Option<i64>) -> (r: Field<'static>)
    ensures
        r@ == flag_view(o),
{
    match o {
        Some(n) => Field::Bool(n != 0),
        None => Field::Null,
    }
}

/// What was decided about an assignment.
pub open spec fn review_members(v: AssignmentView) -> Seq<(Seq<char>, json::FieldView)> {
    seq![
        ("decision"@, json::text_view(v.review_decision)),
        ("by"@, json::text_view(v.reviewed_by)),
        ("at"@, json::text_view(v.reviewed_at)),
        ("reason"@, json::text_view(v.review_reason)),
        ("followup_assignment_id"@, json::text_view(v.followup_assignment_id)),
    ]
}

fn review_json(row: &Assignment) -> (r: String)
    ensures
        r@ == json::json_object(review_members(row@)),
{
    let fields = [
        ("decision", json::text_or_null(&row.review_decision)),
        ("by", json::text_or_null(&row.reviewed_by)),
        ("at", json::text_or_null(&row.reviewed_at)),
        ("reason", json::text_or_null(&row.review_reason)),
        ("followup_assignment_id", json::text_or_null(&row.followup_assignment_id)),
    ];
    assert(json::members(fields@) =~= review_members(row@));
    json::object(&fields)
}

/// Who accepts an assignment.
pub open spec fn accepting_role(v: AssignmentView) -> Seq<char> {
    match v.review_role {
        Some(r) => r,
        None => "responder"@,
    }
}

/// An assignment, as it is shown.
pub open spec fn assignment_members(v: AssignmentView) -> Seq<(Seq<char>, json::FieldView)> {
    seq![
        ("id"@, json::FieldView::Str(v.id)),
        ("target_bot_id"@, json::FieldView::Str(v.target_bot_id)),
        ("client_request_id"@, json::FieldView::Str(v.client_request_id)),
        ("turn_id"@, json::text_view(v.turn_id)),
        ("status"@, json::FieldView::Str(v.status)),
        ("text"@, json::FieldView::Str(v.text)),
        ("delivery"@, json::text_view(v.delivery)),
        ("result"@, json::text_view(v.result)),
        ("error"@, json::text_view(v.error)),
        ("attempts"@, json::FieldView::Int(v.attempts)),
        ("next_attempt_at"@, json::text_view(v.next_attempt_at)),
        ("request_id"@, json::text_view(v.request_id)),
        ("created_at"@, json::FieldView::Str(v.created_at)),
        ("updated_at"@, json::FieldView::Str(v.updated_at)),
        ("completed_at"@, json::text_view(v.completed_at)),
        ("turn_status"@, json::text_view(v.turn_status)),
        ("evidence_complete"@, flag_view(v.evidence_complete)),
        ("open"@, json::FieldView::Bool(assignment_state::open_state(v.status))),
        ("awaiting_review"@, json::FieldView::Bool(v.status == "awaiting_review"@)),
        ("review"@, json::FieldView::Json(json::json_object(review_members(v)))),
        ("follow_up_of"@, json::text_view(v.follow_up_of)),
        ("legacy_closed"@, json::FieldView::Bool(v.legacy_closed != 0)),
        ("ownership"@, json::FieldView::Json(json::json_list(assignments::owned_parts(v)))),
        ("review_role"@, json::FieldView::Str(accepting_role(v))),
        ("kind"@, json::FieldView::Str(if v.expects_review == 0 { "notice"@ } else { "task"@ })),
        ("expects_review"@, json::FieldView::Bool(v.expects_review != 0)),
        ("resume_at"@, json::text_view(v.resume_at)),
        ("quota_retries"@, json::FieldView::Int(v.quota_retries)),
        ("mission_id"@, json::text_view(v.mission_id)),
        ("role"@, json::text_view(v.mission_role)),
        ("turn_error"@, json::text_view(v.turn_error)),
        ("conflict_since"@, json::text_view(v.conflict_since)),
    ]
}

impl Assignment {
    pub fn to_json(&self) -> (r: String)
        ensures
            r@ == json::json_object(assignment_members(self@)),
    {
        let review = review_json(self);
        let ownership = json::list_text(self.ownership().as_slice());
        let role = match &self.review_role {
            Some(r) => r.as_str(),
            None => "responder",
        };
        let fields = [
            ("id", Field::Str(self.id.as_str())),
            ("target_bot_id", Field::Str(self.target_bot_id.as_str())),
            ("client_request_id", Field::Str(self.client_request_id.as_str())),
            ("turn_id", json::text_or_null(&self.turn_id)),
            ("status", Field::Str(self.status.as_str())),
            ("text", Field::Str(self.text.as_str())),
            ("delivery", json::text_or_null(&self.delivery)),
            ("result", json::text_or_null(&self.result)),
            ("error", json::text_or_null(&self.error)),
            ("attempts", Field::Int(self.attempts)),
            ("next_attempt_at", json::text_or_null(&self.next_attempt_at)),
            ("request_id", json::text_or_null(&self.request_id)),
            ("created_at", Field::Str(self.created_at.as_str())),
            ("updated_at", Field::Str(self.updated_at.as_str())),
            ("completed_at", json::text_or_null(&self.completed_at)),
            ("turn_status", json::text_or_null(&self.turn_status)),
            ("evidence_complete", flag_or_null(self.evidence_complete)),
            ("open", Field::Bool(self.is_open())),
            ("awaiting_review", Field::Bool(text::same(self.status.as_str(), "awaiting_review"))),
            ("review", Field::Json(review.as_str())),
            ("follow_up_of", json::text_or_null(&self.follow_up_of)),
            ("legacy_closed", Field::Bool(self.legacy_closed != 0)),
            ("ownership", Field::Json(ownership.as_str())),
            ("review_role", Field::Str(role)),
            ("kind", Field::Str(if self.is_notice() { "notice" } else { "task" })),
            ("expects_review", Field::Bool(!self.is_notice())),
            ("resume_at", json::text_or_null(&self.resume_at)),
            ("quota_retries", Field::Int(self.quota_retries)),
            ("mission_id", json::text_or_null(&self.mission_id)),
            ("role", json::text_or_null(&self.mission_role)),
            ("turn_error", json::text_or_null(&self.turn_error)),
            ("conflict_since", json::text_or_null(&self.conflict_since)),
        ];
        assert(json::members(fields@) =~= assignment_members(self@));
        json::object(&fields)
    }
}

/// How the prompt that carried an event went.
pub open spec fn notify_members(v: InboxEventView) -> Seq<(Seq<char>, json::FieldView)> {
    seq![
        ("turn_id"@, json::text_view(v.notify_turn_id)),
        ("delivery"@, json::text_view(v.notify_delivery)),
        ("attempts"@, json::FieldView::Int(v.notify_attempts)),
        ("next_at"@, json::text_view(v.notify_next_at)),
        ("error"@, json::text_view(v.notify_error)),
        ("delivered_at"@, json::text_view(v.delivered_at)),
    ]
}

fn notify_json(row: &InboxEvent) -> (r: String)
    ensures
        r@ == json::json_object(notify_members(row@)),
{
    let fields = [
        ("turn_id", json::text_or_null(&row.notify_turn_id)),
        ("delivery", json::text_or_null(&row.notify_delivery)),
        ("attempts", Field::Int(row.notify_attempts)),
        ("next_at", json::text_or_null(&row.notify_next_at)),
        ("error", json::text_or_null(&row.notify_error)),
        ("delivered_at", json::text_or_null(&row.delivered_at)),
    ];
    assert(json::members(fields@) =~= notify_members(row@));
    json::object(&fields)
}

/// An event, as it is shown.
pub open spec fn event_members(v: InboxEventView) -> Seq<(Seq<char>, json::FieldView)> {
    seq![
        ("id"@, json::FieldView::Str(v.id)),
        ("event_key"@, json::FieldView::Str(v.event_key)),
        ("assignment_id"@, json::text_view(v.assignment_id)),
        ("bot_id"@, json::text_view(v.bot_id)),
        ("turn_id"@, json::text_view(v.turn_id)),
        ("kind"@, json::FieldView::Str(v.kind)),
        ("payload"@, json::FieldView::Json(json::readable(v.payload_json))),
        ("state"@, json::FieldView::Str(v.state)),
        ("notify"@, json::FieldView::Json(json::json_object(notify_members(v)))),
        ("role"@, json::text_view(v.role)),
        ("wake"@, flag_view(v.wake)),
        ("claimed_by"@, json::text_view(v.claimed_by)),
        ("acked_by"@, json::text_view(v.acked_by)),
        ("merged_into"@, json::text_view(v.merged_into)),
        ("created_at"@, json::FieldView::Str(v.created_at)),
        ("updated_at"@, json::FieldView::Str(v.updated_at)),
    ]
}

impl InboxEvent {
    pub fn to_json(&self) -> (r: String)
        ensures
            r@ == json::json_object(event_members(self@)),
    {
        let notify = notify_json(self);
        let payload = json::or_empty(self.payload_json.as_str());
        let fields = [
            ("id", Field::Str(self.id.as_str())),
            ("event_key", Field::Str(self.event_key.as_str())),
            ("assignment_id", json::text_or_null(&self.assignment_id)),
            ("bot_id", json::text_or_null(&self.bot_id)),
            ("turn_id", json::text_or_null(&self.turn_id)),
            ("kind", Field::Str(self.kind.as_str())),
            ("payload", Field::Json(payload.as_str())),
            ("state", Field::Str(self.state.as_str())),
            ("notify", Field::Json(notify.as_str())),
            ("role", json::text_or_null(&self.role)),
            ("wake", flag_or_null(self.wake)),
            ("claimed_by", json::text_or_null(&self.claimed_by)),
            ("acked_by", json::text_or_null(&self.acked_by)),
            ("merged_into", json::text_or_null(&self.merged_into)),
            ("created_at", Field::Str(self.created_at.as_str())),
            ("updated_at", Field::Str(self.updated_at.as_str())),
        ];
        assert(json::members(fields@) =~= event_members(self@));
        json::object(&fields)
    }
}

/// An approval, as it is shown.
pub open spec fn approval_members(v: ApprovalView) -> Seq<(Seq<char>, json::FieldView)> {
    seq![
        ("id"@, json::FieldView::Str(v.id)),
        ("requester"@, json::FieldView::Str(v.requester)),
        ("purpose"@, json::FieldView::Str(v.purpose)),
        ("scope"@, json::FieldView::Str(v.scope)),
        ("target_commit"@, json::text_view(v.target_commit)),
        ("status"@, json::FieldView::Str(v.status)),
        ("decided_by"@, json::text_view(v.decided_by)),
        ("decided_at"@, json::text_view(v.decided_at)),
        ("reason"@, json::text_view(v.reason)),
        ("expires_at"@, json::text_view(v.expires_at)),
        ("client_request_id"@, json::text_view(v.client_request_id)),
        ("wait_since"@, json::text_view(v.wait_since)),
        ("created_at"@, json::FieldView::Str(v.created_at)),
        ("updated_at"@, json::FieldView::Str(v.updated_at)),
    ]
}

impl Approval {
    pub fn to_json(&self) -> (r: String)
        ensures
            r@ == json::json_object(approval_members(self@)),
    {
        let fields = [
            ("id", Field::Str(self.id.as_str())),
            ("requester", Field::Str(self.requester.as_str())),
            ("purpose", Field::Str(self.purpose.as_str())),
            ("scope", Field::Str(self.scope.as_str())),
            ("target_commit", json::text_or_null(&self.target_commit)),
            ("status", Field::Str(self.status.as_str())),
            ("decided_by", json::text_or_null(&self.decided_by)),
            ("decided_at", json::text_or_null(&self.decided_at)),
            ("reason", json::text_or_null(&self.reason)),
            ("expires_at", json::text_or_null(&self.expires_at)),
            ("client_request_id", json::text_or_null(&self.client_request_id)),
            ("wait_since", json::text_or_null(&self.wait_since)),
            ("created_at", Field::Str(self.created_at.as_str())),
            ("updated_at", Field::Str(self.updated_at.as_str())),
        ];
        assert(json::members(fields@) =~= approval_members(self@));
        json::object(&fields)
    }
}

/// A lease, as it is shown at a moment. The proof is not part of it.
pub open spec fn lease_members(v: LeaseView, now: Seq<char>) -> Seq<(Seq<char>, json::FieldView)> {
    seq![
        ("resource"@, json::FieldView::Str(v.resource)),
        ("owner"@, json::text_view(v.owner)),
        ("approval_id"@, json::text_view(v.approval_id)),
        ("fence"@, json::FieldView::Int(v.fence)),
        ("target_commit"@, json::text_view(v.target_commit)),
        ("acquired_at"@, json::text_view(v.acquired_at)),
        ("expires_at"@, json::text_view(v.expires_at)),
        ("released_at"@, json::text_view(v.released_at)),
        ("held"@, json::FieldView::Bool(leases::held(v, now))),
    ]
}

impl Lease {
    pub fn to_json(&self, now: &str) -> (r: String)
        ensures
            r@ == json::json_object(lease_members(self@, now@)),
    {
        let fields = [
            ("resource", Field::Str(self.resource.as_str())),
            ("owner", json::text_or_null(&self.owner)),
            ("approval_id", json::text_or_null(&self.approval_id)),
            ("fence", Field::Int(self.fence)),
            ("target_commit", json::text_or_null(&self.target_commit)),
            ("acquired_at", json::text_or_null(&self.acquired_at)),
            ("expires_at", json::text_or_null(&self.expires_at)),
            ("released_at", json::text_or_null(&self.released_at)),
            ("held", Field::Bool(self.held_at(now))),
        ];
        assert(json::members(fields@) =~= lease_members(self@, now@));
        json::object(&fields)
    }
}

/// An incident, as it is shown.
pub open spec fn incident_members(v: IncidentView) -> Seq<(Seq<char>, json::FieldView)> {
    seq![
        ("id"@, json::FieldView::Str(v.id)),
        ("kind"@, json::FieldView::Str(v.kind)),
        ("resource"@, json::FieldView::Str(v.resource)),
        ("severity"@, json::FieldView::Str(v.severity)),
        ("status"@, json::FieldView::Str(v.status)),
        ("detail"@, json::FieldView::Json(json::readable(v.detail_json))),
        ("occurrences"@, json::FieldView::Int(v.occurrences)),
        ("first_seen_at"@, json::FieldView::Str(v.first_seen_at)),
        ("last_seen_at"@, json::FieldView::Str(v.last_seen_at)),
        ("resolved_at"@, json::text_view(v.resolved_at)),
    ]
}

impl Incident {
    pub fn to_json(&self) -> (r: String)
        ensures
            r@ == json::json_object(incident_members(self@)),
    {
        let detail = json::or_empty(self.detail_json.as_str());
        let fields = [
            ("id", Field::Str(self.id.as_str())),
            ("kind", Field::Str(self.kind.as_str())),
            ("resource", Field::Str(self.resource.as_str())),
            ("severity", Field::Str(self.severity.as_str())),
            ("status", Field::Str(self.status.as_str())),
            ("detail", Field::Json(detail.as_str())),
            ("occurrences", Field::Int(self.occurrences)),
            ("first_seen_at", Field::Str(self.first_seen_at.as_str())),
            ("last_seen_at", Field::Str(self.last_seen_at.as_str())),
            ("resolved_at", json::text_or_null(&self.resolved_at)),
        ];
        assert(json::members(fields@) =~= incident_members(self@));
        json::object(&fields)
    }
}

/// What a role has been up to.
pub open spec fn stats_members(v: RoleRowView) -> Seq<(Seq<char>, json::FieldView)> {
    seq![
        ("wakes"@, json::FieldView::Int(v.wakes)),
        ("events_delivered"@, json::FieldView::Int(v.events_delivered)),
        ("duplicates"@, json::FieldView::Int(v.duplicates)),
        ("merged"@, json::FieldView::Int(v.merged)),
        ("last_wake_at"@, json::text_view(v.last_wake_at)),
        ("last_wake_reason"@, json::text_view(v.last_wake_reason)),
        ("last_notify_at"@, json::text_view(v.last_notify_at)),
        ("notify_next_at"@, json::text_view(v.notify_next_at)),
    ]
}

impl RoleRow {
    pub fn stats_json(&self) -> (r: String)
        ensures
            r@ == json::json_object(stats_members(self@)),
    {
        let fields = [
            ("wakes", Field::Int(self.wakes)),
            ("events_delivered", Field::Int(self.events_delivered)),
            ("duplicates", Field::Int(self.duplicates)),
            ("merged", Field::Int(self.merged)),
            ("last_wake_at", json::text_or_null(&self.last_wake_at)),
            ("last_wake_reason", json::text_or_null(&self.last_wake_reason)),
            ("last_notify_at", json::text_or_null(&self.last_notify_at)),
            ("notify_next_at", json::text_or_null(&self.notify_next_at)),
        ];
        assert(json::members(fields@) =~= stats_members(self@));
        json::object(&fields)
    }
}

/// The JSON texts of a list.
pub open spec fn assignment_texts(v: Seq<AssignmentView>) -> Seq<Seq<char>> {
    v.map_values(|e: AssignmentView| json::json_object(assignment_members(e)))
}

pub fn assignments_json(list: &Vec<Assignment>) -> (r: String)
    ensures
        r@ == json::json_array(assignment_texts(table::views(list@))),
{
    let mut out: Vec<String> = Vec::new();
    let mut i: usize = 0;
    while i < list.len()
        invariant
            i <= list.len(),
            out.len() == i,
            forall|j: int| 0 <= j < i ==> (#[trigger] out@[j])@ == json::json_object(assignment_members(list@[j]@)),
        decreases list.len() - i,
    {
        out.push(list[i].to_json());
        i += 1;
    }
    assert(text::texts(out@) =~= assignment_texts(table::views(list@)));
    json::array(&out)
}

/// The JSON texts of a list.
pub open spec fn event_texts(v: Seq<InboxEventView>) -> Seq<Seq<char>> {
    v.map_values(|e: InboxEventView| json::json_object(event_members(e)))
}

pub fn events_json(list: &Vec<InboxEvent>) -> (r: String)
    ensures
        r@ == json::json_array(event_texts(table::views(list@))),
{
    let mut out: Vec<String> = Vec::new();
    let mut i: usize = 0;
    while i < list.len()
        invariant
            i <= list.len(),
            out.len() == i,
            forall|j: int| 0 <= j < i ==> (#[trigger] out@[j])@ == json::json_object(event_members(list@[j]@)),
        decreases list.len() - i,
    {
        out.push(list[i].to_json());
        i += 1;
    }
    assert(text::texts(out@) =~= event_texts(table::views(list@)));
    json::array(&out)
}

/// The JSON texts of a list.
pub open spec fn incident_texts(v: Seq<IncidentView>) -> Seq<Seq<char>> {
    v.map_values(|e: IncidentView| json::json_object(incident_members(e)))
}

pub fn incidents_json(list: &Vec<Incident>) -> (r: String)
    ensures
        r@ == json::json_array(incident_texts(table::views(list@))),
{
    let mut out: Vec<String> = Vec::new();
    let mut i: usize = 0;
    while i < list.len()
        invariant
            i <= list.len(),
            out.len() == i,
            forall|j: int| 0 <= j < i ==> (#[trigger] out@[j])@ == json::json_object(incident_members(list@[j]@)),
        decreases list.len() - i,
    {
        out.push(list[i].to_json());
        i += 1;
    }
    assert(text::texts(out@) =~= incident_texts(table::views(list@)));
    json::array(&out)
}

// ---------------------------------------------------------------- laws

/// The proof of a lease is shown to nobody: two leases that differ only in it look the same.
pub proof fn the_token_is_never_shown(l: LeaseView, token: Option<Seq<char>>, now: Seq<char>)
    ensures
        lease_members(LeaseView { lease_token: token, ..l }, now) == lease_members(l, now),
{
}

/// What was decided about an assignment is shown with who decided it, when and why, and with what carries it
/// forward; what is missing is null.
pub proof fn a_decision_is_shown_with_who_took_it(v: AssignmentView)
    ensures
        ({
            let m = review_members(v);
            let text_or_null = |o: Option<Seq<char>>|
                match o {
                    Some(x) => json::FieldView::Str(x),
                    None => json::FieldView::Null,
                };
            &&& m.len() == 5
            &&& m.contains(("decision"@, text_or_null(v.review_decision)))
            &&& m.contains(("by"@, text_or_null(v.reviewed_by)))
            &&& m.contains(("at"@, text_or_null(v.reviewed_at)))
            &&& m.contains(("reason"@, text_or_null(v.review_reason)))
            &&& m.contains(("followup_assignment_id"@, text_or_null(v.followup_assignment_id)))
        }),
{
    let m = review_members(v);
    assert(m[0].0 == "decision"@);
    assert(m[1].0 == "by"@);
    assert(m[2].0 == "at"@);
    assert(m[3].0 == "reason"@);
    assert(m[4].0 == "followup_assignment_id"@);
}

/// An assignment is shown with each of its columns under its own name, null where there is nothing, and with
/// what its columns come to: whether it is still open, whether it waits to be accepted, whether it is a task
/// or a notice, and who accepts it.
pub proof fn an_assignment_is_shown_whole(v: AssignmentView)
    ensures
        ({
            let m = assignment_members(v);
            let text_or_null = |o: Option<Seq<char>>|
                match o {
                    Some(x) => json::FieldView::Str(x),
                    None => json::FieldView::Null,
                };
            let flag_or_null = |o: Option<i64>|
                match o {
                    Some(n) => json::FieldView::Bool(n != 0),
                    None => json::FieldView::Null,
                };
            &&& m.len() == 32
            &&& m.contains(("id"@, json::FieldView::Str(v.id)))
            &&& m.contains(("target_bot_id"@, json::FieldView::Str(v.target_bot_id)))
            &&& m.contains(("client_request_id"@, json::FieldView::Str(v.client_request_id)))
            &&& m.contains(("turn_id"@, text_or_null(v.turn_id)))
            &&& m.contains(("status"@, json::FieldView::Str(v.status)))
            &&& m.contains(("text"@, json::FieldView::Str(v.text)))
            &&& m.contains(("delivery"@, text_or_null(v.delivery)))
            &&& m.contains(("result"@, text_or_null(v.result)))
            &&& m.contains(("error"@, text_or_null(v.error)))
            &&& m.contains(("attempts"@, json::FieldView::Int(v.attempts)))
            &&& m.contains(("next_attempt_at"@, text_or_null(v.next_attempt_at)))
            &&& m.contains(("request_id"@, text_or_null(v.request_id)))
            &&& m.contains(("created_at"@, json::FieldView::Str(v.created_at)))
            &&& m.contains(("updated_at"@, json::FieldView::Str(v.updated_at)))
            &&& m.contains(("completed_at"@, text_or_null(v.completed_at)))
            &&& m.contains(("turn_status"@, text_or_null(v.turn_status)))
            &&& m.contains(("evidence_complete"@, flag_or_null(v.evidence_complete)))
            &&& m.contains(
                (
                    "open"@,
                    json::FieldView::Bool(v.status == "queued"@
                            || v.status == "delivered"@
                            || v.status == "unknown"@
                            || v.status == "awaiting_review"@
                            || v.status == "blocked"@
                            || v.status == "quota_blocked"@),
                ),
            )
            &&& m.contains(("awaiting_review"@, json::FieldView::Bool(v.status == "awaiting_review"@)))
            &&& m.contains(("review"@, json::FieldView::Json(json::json_object(review_members(v)))))
            &&& m.contains(("follow_up_of"@, text_or_null(v.follow_up_of)))
            &&& m.contains(("legacy_closed"@, json::FieldView::Bool(v.legacy_closed != 0)))
            &&& m.contains(("ownership"@, json::FieldView::Json(json::json_list(assignments::owned_parts(v)))))
            &&& m.contains(
                (
                    "review_role"@,
                    json::FieldView::Str(if v.review_role is Some { v.review_role->0 } else { "responder"@ }),
                ),
            )
            &&& m.contains(("kind"@, json::FieldView::Str(if v.expects_review == 0 { "notice"@ } else { "task"@ })))
            &&& m.contains(("expects_review"@, json::FieldView::Bool(v.expects_review != 0)))
            &&& m.contains(("resume_at"@, text_or_null(v.resume_at)))
            &&& m.contains(("quota_retries"@, json::FieldView::Int(v.quota_retries)))
            &&& m.contains(("mission_id"@, text_or_null(v.mission_id)))
            &&& m.contains(("role"@, text_or_null(v.mission_role)))
            &&& m.contains(("turn_error"@, text_or_null(v.turn_error)))
            &&& m.contains(("conflict_since"@, text_or_null(v.conflict_since)))
        }),
{
    let m = assignment_members(v);
    assert(m[0].0 == "id"@);
    assert(m[1].0 == "target_bot_id"@);
    assert(m[2].0 == "client_request_id"@);
    assert(m[3].0 == "turn_id"@);
    assert(m[4].0 == "status"@);
    assert(m[5].0 == "text"@);
    assert(m[6].0 == "delivery"@);
    assert(m[7].0 == "result"@);
    assert(m[8].0 == "error"@);
    assert(m[9].0 == "attempts"@);
    assert(m[10].0 == "next_attempt_at"@);
    assert(m[11].0 == "request_id"@);
    assert(m[12].0 == "created_at"@);
    assert(m[13].0 == "updated_at"@);
    assert(m[14].0 == "completed_at"@);
    assert(m[15].0 == "turn_status"@);
    assert(m[16].0 == "evidence_complete"@);
    assert(m[17].0 == "open"@);
    assert(m[18].0 == "awaiting_review"@);
    assert(m[19].0 == "review"@);
    assert(m[20].0 == "follow_up_of"@);
    assert(m[21].0 == "legacy_closed"@);
    assert(m[22].0 == "ownership"@);
    assert(m[23].0 == "review_role"@);
    assert(m[24].0 == "kind"@);
    assert(m[25].0 == "expects_review"@);
    assert(m[26].0 == "resume_at"@);
    assert(m[27].0 == "quota_retries"@);
    assert(m[28].0 == "mission_id"@);
    assert(m[29].0 == "role"@);
    assert(m[30].0 == "turn_error"@);
    assert(m[31].0 == "conflict_since"@);
}

/// How the prompt that carried an event went is shown with its turn, its delivery, how often it was tried and
/// when it is due again.
pub proof fn the_prompt_of_an_event_is_shown(v: InboxEventView)
    ensures
        ({
            let m = notify_members(v);
            let text_or_null = |o: Option<Seq<char>>|
                match o {
                    Some(x) => json::FieldView::Str(x),
                    None => json::FieldView::Null,
                };
            &&& m.len() == 6
            &&& m.contains(("turn_id"@, text_or_null(v.notify_turn_id)))
            &&& m.contains(("delivery"@, text_or_null(v.notify_delivery)))
            &&& m.contains(("attempts"@, json::FieldView::Int(v.notify_attempts)))
            &&& m.contains(("next_at"@, text_or_null(v.notify_next_at)))
            &&& m.contains(("error"@, text_or_null(v.notify_error)))
            &&& m.contains(("delivered_at"@, text_or_null(v.delivered_at)))
        }),
{
    let m = notify_members(v);
    assert(m[0].0 == "turn_id"@);
    assert(m[1].0 == "delivery"@);
    assert(m[2].0 == "attempts"@);
    assert(m[3].0 == "next_at"@);
    assert(m[4].0 == "error"@);
    assert(m[5].0 == "delivered_at"@);
}

/// An event is shown with each of its columns under its own name, and its payload as the value that it is; one
/// that cannot be read is an empty object.
pub proof fn an_event_is_shown_whole(v: InboxEventView)
    ensures
        ({
            let m = event_members(v);
            let text_or_null = |o: Option<Seq<char>>|
                match o {
                    Some(x) => json::FieldView::Str(x),
                    None => json::FieldView::Null,
                };
            let flag_or_null = |o: Option<i64>|
                match o {
                    Some(n) => json::FieldView::Bool(n != 0),
                    None => json::FieldView::Null,
                };
            &&& m.len() == 16
            &&& m.contains(("id"@, json::FieldView::Str(v.id)))
            &&& m.contains(("event_key"@, json::FieldView::Str(v.event_key)))
            &&& m.contains(("assignment_id"@, text_or_null(v.assignment_id)))
            &&& m.contains(("bot_id"@, text_or_null(v.bot_id)))
            &&& m.contains(("turn_id"@, text_or_null(v.turn_id)))
            &&& m.contains(("kind"@, json::FieldView::Str(v.kind)))
            &&& m.contains(
                (
                    "payload"@,
                    json::FieldView::Json(match json::json_compact(v.payload_json) { Some(x) => x, None => "{}"@ }),
                ),
            )
            &&& m.contains(("state"@, json::FieldView::Str(v.state)))
            &&& m.contains(("notify"@, json::FieldView::Json(json::json_object(notify_members(v)))))
            &&& m.contains(("role"@, text_or_null(v.role)))
            &&& m.contains(("wake"@, flag_or_null(v.wake)))
            &&& m.contains(("claimed_by"@, text_or_null(v.claimed_by)))
            &&& m.contains(("acked_by"@, text_or_null(v.acked_by)))
            &&& m.contains(("merged_into"@, text_or_null(v.merged_into)))
            &&& m.contains(("created_at"@, json::FieldView::Str(v.created_at)))
            &&& m.contains(("updated_at"@, json::FieldView::Str(v.updated_at)))
        }),
{
    let m = event_members(v);
    assert(m[0].0 == "id"@);
    assert(m[1].0 == "event_key"@);
    assert(m[2].0 == "assignment_id"@);
    assert(m[3].0 == "bot_id"@);
    assert(m[4].0 == "turn_id"@);
    assert(m[5].0 == "kind"@);
    assert(m[6].0 == "payload"@);
    assert(m[7].0 == "state"@);
    assert(m[8].0 == "notify"@);
    assert(m[9].0 == "role"@);
    assert(m[10].0 == "wake"@);
    assert(m[11].0 == "claimed_by"@);
    assert(m[12].0 == "acked_by"@);
    assert(m[13].0 == "merged_into"@);
    assert(m[14].0 == "created_at"@);
    assert(m[15].0 == "updated_at"@);
}

/// An approval is shown with each of its columns under its own name.
pub proof fn an_approval_is_shown_whole(v: ApprovalView)
    ensures
        ({
            let m = approval_members(v);
            let text_or_null = |o: Option<Seq<char>>|
                match o {
                    Some(x) => json::FieldView::Str(x),
                    None => json::FieldView::Null,
                };
            &&& m.len() == 14
            &&& m.contains(("id"@, json::FieldView::Str(v.id)))
            &&& m.contains(("requester"@, json::FieldView::Str(v.requester)))
            &&& m.contains(("purpose"@, json::FieldView::Str(v.purpose)))
            &&& m.contains(("scope"@, json::FieldView::Str(v.scope)))
            &&& m.contains(("target_commit"@, text_or_null(v.target_commit)))
            &&& m.contains(("status"@, json::FieldView::Str(v.status)))
            &&& m.contains(("decided_by"@, text_or_null(v.decided_by)))
            &&& m.contains(("decided_at"@, text_or_null(v.decided_at)))
            &&& m.contains(("reason"@, text_or_null(v.reason)))
            &&& m.contains(("expires_at"@, text_or_null(v.expires_at)))
            &&& m.contains(("client_request_id"@, text_or_null(v.client_request_id)))
            &&& m.contains(("wait_since"@, text_or_null(v.wait_since)))
            &&& m.contains(("created_at"@, json::FieldView::Str(v.created_at)))
            &&& m.contains(("updated_at"@, json::FieldView::Str(v.updated_at)))
        }),
{
    let m = approval_members(v);
    assert(m[0].0 == "id"@);
    assert(m[1].0 == "requester"@);
    assert(m[2].0 == "purpose"@);
    assert(m[3].0 == "scope"@);
    assert(m[4].0 == "target_commit"@);
    assert(m[5].0 == "status"@);
    assert(m[6].0 == "decided_by"@);
    assert(m[7].0 == "decided_at"@);
    assert(m[8].0 == "reason"@);
    assert(m[9].0 == "expires_at"@);
    assert(m[10].0 == "client_request_id"@);
    assert(m[11].0 == "wait_since"@);
    assert(m[12].0 == "created_at"@);
    assert(m[13].0 == "updated_at"@);
}

/// A lease is shown with its columns but for the token, and with whether it is held: not given back, and with
/// an end that is still ahead.
pub proof fn a_lease_is_shown_with_whether_it_is_held(v: LeaseView, now: Seq<char>)
    ensures
        ({
            let m = lease_members(v, now);
            let text_or_null = |o: Option<Seq<char>>|
                match o {
                    Some(x) => json::FieldView::Str(x),
                    None => json::FieldView::Null,
                };
            &&& m.len() == 9
            &&& m.contains(("resource"@, json::FieldView::Str(v.resource)))
            &&& m.contains(("owner"@, text_or_null(v.owner)))
            &&& m.contains(("approval_id"@, text_or_null(v.approval_id)))
            &&& m.contains(("fence"@, json::FieldView::Int(v.fence)))
            &&& m.contains(("target_commit"@, text_or_null(v.target_commit)))
            &&& m.contains(("acquired_at"@, text_or_null(v.acquired_at)))
            &&& m.contains(("expires_at"@, text_or_null(v.expires_at)))
            &&& m.contains(("released_at"@, text_or_null(v.released_at)))
            &&& m.contains(
                (
                    "held"@,
                    json::FieldView::Bool(v.released_at is None && v.expires_at is Some && crate::time::ts_before(now, v.expires_at->0)),
                ),
            )
        }),
{
    let m = lease_members(v, now);
    assert(m[0].0 == "resource"@);
    assert(m[1].0 == "owner"@);
    assert(m[2].0 == "approval_id"@);
    assert(m[3].0 == "fence"@);
    assert(m[4].0 == "target_commit"@);
    assert(m[5].0 == "acquired_at"@);
    assert(m[6].0 == "expires_at"@);
    assert(m[7].0 == "released_at"@);
    assert(m[8].0 == "held"@);
}

/// An incident is shown with each of its columns under its own name, and its detail as the value that it is.
pub proof fn an_incident_is_shown_whole(v: IncidentView)
    ensures
        ({
            let m = incident_members(v);
            let text_or_null = |o: Option<Seq<char>>|
                match o {
                    Some(x) => json::FieldView::Str(x),
                    None => json::FieldView::Null,
                };
            &&& m.len() == 10
            &&& m.contains(("id"@, json::FieldView::Str(v.id)))
            &&& m.contains(("kind"@, json::FieldView::Str(v.kind)))
            &&& m.contains(("resource"@, json::FieldView::Str(v.resource)))
            &&& m.contains(("severity"@, json::FieldView::Str(v.severity)))
            &&& m.contains(("status"@, json::FieldView::Str(v.status)))
            &&& m.contains(
                (
                    "detail"@,
                    json::FieldView::Json(match json::json_compact(v.detail_json) { Some(x) => x, None => "{}"@ }),
                ),
            )
            &&& m.contains(("occurrences"@, json::FieldView::Int(v.occurrences)))
            &&& m.contains(("first_seen_at"@, json::FieldView::Str(v.first_seen_at)))
            &&& m.contains(("last_seen_at"@, json::FieldView::Str(v.last_seen_at)))
            &&& m.contains(("resolved_at"@, text_or_null(v.resolved_at)))
        }),
{
    let m = incident_members(v);
    assert(m[0].0 == "id"@);
    assert(m[1].0 == "kind"@);
    assert(m[2].0 == "resource"@);
    assert(m[3].0 == "severity"@);
    assert(m[4].0 == "status"@);
    assert(m[5].0 == "detail"@);
    assert(m[6].0 == "occurrences"@);
    assert(m[7].0 == "first_seen_at"@);
    assert(m[8].0 == "last_seen_at"@);
    assert(m[9].0 == "resolved_at"@);
}

/// What a role has been up to is shown number by number.
pub proof fn the_numbers_of_a_role_are_shown(v: RoleRowView)
    ensures
        ({
            let m = stats_members(v);
            let text_or_null = |o: Option<Seq<char>>|
                match o {
                    Some(x) => json::FieldView::Str(x),
                    None => json::FieldView::Null,
                };
            &&& m.len() == 8
            &&& m.contains(("wakes"@, json::FieldView::Int(v.wakes)))
            &&& m.contains(("events_delivered"@, json::FieldView::Int(v.events_delivered)))
            &&& m.contains(("duplicates"@, json::FieldView::Int(v.duplicates)))
            &&& m.contains(("merged"@, json::FieldView::Int(v.merged)))
            &&& m.contains(("last_wake_at"@, text_or_null(v.last_wake_at)))
            &&& m.contains(("last_wake_reason"@, text_or_null(v.last_wake_reason)))
            &&& m.contains(("last_notify_at"@, text_or_null(v.last_notify_at)))
            &&& m.contains(("notify_next_at"@, text_or_null(v.notify_next_at)))
        }),
{
    let m = stats_members(v);
    assert(m[0].0 == "wakes"@);
    assert(m[1].0 == "events_delivered"@);
    assert(m[2].0 == "duplicates"@);
    assert(m[3].0 == "merged"@);
    assert(m[4].0 == "last_wake_at"@);
    assert(m[5].0 == "last_wake_reason"@);
    assert(m[6].0 == "last_notify_at"@);
    assert(m[7].0 == "notify_next_at"@);
}

} // verus!
