//! The rows of the supervisor's tables, and what each of them holds.
use crate::table::Row;
use crate::text;
use vstd::prelude::*;

verus! {

/// The one supervisor row: which bot is the manager, on which model it runs, and what is known of it.
#[derive(Debug)]
pub struct Supervisor {
    pub id: String,
    pub bot_id: Option<String>,
    pub project_id: Option<String>,
    pub cwd: Option<String>,
    pub identity: String,
    pub effort: String,
    /// `fable` or `opus`: the candidate in use, written only after the switch applied.
    pub active_model: String,
    /// Bumped on every switch and re-setup; an older controller sees the mismatch and stops.
    pub generation: i64,
    /// Sticky override: `waiting_quota`, `failed`, or empty to derive it from the run.
    pub status: String,
    pub status_detail: Option<String>,
    /// Automatic candidate switches inside the current cooldown window.
    pub fallback_tries: i64,
    pub cooldown_until: Option<String>,
    pub quota_reset_at: Option<String>,
    pub remote_status: String,
    pub remote_url: Option<String>,
    pub summary: Option<String>,
    pub summary_version: i64,
    pub desired_running: i64,
    pub watchdog_attempts: i64,
    pub watchdog_next_at: Option<String>,
    pub last_notify_at: Option<String>,
    pub persona_text: Option<String>,
    pub persona_version: i64,
    pub persona_hash: Option<String>,
    pub persona_source: Option<String>,
    pub persona_updated_at: Option<String>,
    pub persona_seed_hash: Option<String>,
    pub remote_source: Option<String>,
    pub remote_observed_at: Option<String>,
    pub remote_session_id: Option<String>,
    pub remote_actor: Option<String>,
    pub remote_evidence: Option<String>,
    pub watchdog_gave_up_at: Option<String>,
    pub watchdog_last_error: Option<String>,
    pub created_at: String,
    pub updated_at: String,
}

/// What a `Supervisor` holds.
#[verifier::ext_equal]
pub struct SupervisorView {
    pub id: Seq<char>,
    pub bot_id: Option<Seq<char>>,
    pub project_id: Option<Seq<char>>,
    pub cwd: Option<Seq<char>>,
    pub identity: Seq<char>,
    pub effort: Seq<char>,
    pub active_model: Seq<char>,
    pub generation: i64,
    pub status: Seq<char>,
    pub status_detail: Option<Seq<char>>,
    pub fallback_tries: i64,
    pub cooldown_until: Option<Seq<char>>,
    pub quota_reset_at: Option<Seq<char>>,
    pub remote_status: Seq<char>,
    pub remote_url: Option<Seq<char>>,
    pub summary: Option<Seq<char>>,
    pub summary_version: i64,
    pub desired_running: i64,
    pub watchdog_attempts: i64,
    pub watchdog_next_at: Option<Seq<char>>,
    pub last_notify_at: Option<Seq<char>>,
    pub persona_text: Option<Seq<char>>,
    pub persona_version: i64,
    pub persona_hash: Option<Seq<char>>,
    pub persona_source: Option<Seq<char>>,
    pub persona_updated_at: Option<Seq<char>>,
    pub persona_seed_hash: Option<Seq<char>>,
    pub remote_source: Option<Seq<char>>,
    pub remote_observed_at: Option<Seq<char>>,
    pub remote_session_id: Option<Seq<char>>,
    pub remote_actor: Option<Seq<char>>,
    pub remote_evidence: Option<Seq<char>>,
    pub watchdog_gave_up_at: Option<Seq<char>>,
    pub watchdog_last_error: Option<Seq<char>>,
    pub created_at: Seq<char>,
    pub updated_at: Seq<char>,
}

impl View for Supervisor {
    type V = SupervisorView;

    open spec fn view(&self) -> SupervisorView {
        SupervisorView {
            id: self.id@,
            bot_id: text::opt(self.bot_id),
            project_id: text::opt(self.project_id),
            cwd: text::opt(self.cwd),
            identity: self.identity@,
            effort: self.effort@,
            active_model: self.active_model@,
            generation: self.generation,
            status: self.status@,
            status_detail: text::opt(self.status_detail),
            fallback_tries: self.fallback_tries,
            cooldown_until: text::opt(self.cooldown_until),
            quota_reset_at: text::opt(self.quota_reset_at),
            remote_status: self.remote_status@,
            remote_url: text::opt(self.remote_url),
            summary: text::opt(self.summary),
            summary_version: self.summary_version,
            desired_running: self.desired_running,
            watchdog_attempts: self.watchdog_attempts,
            watchdog_next_at: text::opt(self.watchdog_next_at),
            last_notify_at: text::opt(self.last_notify_at),
            persona_text: text::opt(self.persona_text),
            persona_version: self.persona_version,
            persona_hash: text::opt(self.persona_hash),
            persona_source: text::opt(self.persona_source),
            persona_updated_at: text::opt(self.persona_updated_at),
            persona_seed_hash: text::opt(self.persona_seed_hash),
            remote_source: text::opt(self.remote_source),
            remote_observed_at: text::opt(self.remote_observed_at),
            remote_session_id: text::opt(self.remote_session_id),
            remote_actor: text::opt(self.remote_actor),
            remote_evidence: text::opt(self.remote_evidence),
            watchdog_gave_up_at: text::opt(self.watchdog_gave_up_at),
            watchdog_last_error: text::opt(self.watchdog_last_error),
            created_at: self.created_at@,
            updated_at: self.updated_at@,
        }
    }
}

impl Row for Supervisor {
    fn copied(&self) -> (r: Self) {
        Supervisor {
            id: self.id.clone(),
            bot_id: text::copied(&self.bot_id),
            project_id: text::copied(&self.project_id),
            cwd: text::copied(&self.cwd),
            identity: self.identity.clone(),
            effort: self.effort.clone(),
            active_model: self.active_model.clone(),
            generation: self.generation,
            status: self.status.clone(),
            status_detail: text::copied(&self.status_detail),
            fallback_tries: self.fallback_tries,
            cooldown_until: text::copied(&self.cooldown_until),
            quota_reset_at: text::copied(&self.quota_reset_at),
            remote_status: self.remote_status.clone(),
            remote_url: text::copied(&self.remote_url),
            summary: text::copied(&self.summary),
            summary_version: self.summary_version,
            desired_running: self.desired_running,
            watchdog_attempts: self.watchdog_attempts,
            watchdog_next_at: text::copied(&self.watchdog_next_at),
            last_notify_at: text::copied(&self.last_notify_at),
            persona_text: text::copied(&self.persona_text),
            persona_version: self.persona_version,
            persona_hash: text::copied(&self.persona_hash),
            persona_source: text::copied(&self.persona_source),
            persona_updated_at: text::copied(&self.persona_updated_at),
            persona_seed_hash: text::copied(&self.persona_seed_hash),
            remote_source: text::copied(&self.remote_source),
            remote_observed_at: text::copied(&self.remote_observed_at),
            remote_session_id: text::copied(&self.remote_session_id),
            remote_actor: text::copied(&self.remote_actor),
            remote_evidence: text::copied(&self.remote_evidence),
            watchdog_gave_up_at: text::copied(&self.watchdog_gave_up_at),
            watchdog_last_error: text::copied(&self.watchdog_last_error),
            created_at: self.created_at.clone(),
            updated_at: self.updated_at.clone(),
        }
    }
}

impl Clone for Supervisor {
    fn clone(&self) -> (r: Self)
        ensures
            r@ == self@,
    {
        self.copied()
    }
}

/// A piece of work handed to a bot, from the moment it is written down until somebody decides it.
#[derive(Debug)]
pub struct Assignment {
    pub id: String,
    pub supervisor_id: String,
    pub request_id: Option<String>,
    pub target_bot_id: String,
    /// The one id every retry of this assignment reuses.
    pub client_request_id: String,
    pub turn_id: Option<String>,
    pub text: String,
    pub status: String,
    pub delivery: Option<String>,
    pub result: Option<String>,
    pub error: Option<String>,
    pub attempts: i64,
    pub next_attempt_at: Option<String>,
    pub created_at: String,
    pub updated_at: String,
    pub completed_at: Option<String>,
    /// The turn's own last word, kept apart from the lifecycle status.
    pub turn_status: Option<String>,
    pub evidence_complete: Option<i64>,
    pub reviewed_at: Option<String>,
    pub reviewed_by: Option<String>,
    pub review_decision: Option<String>,
    pub review_reason: Option<String>,
    pub followup_assignment_id: Option<String>,
    pub follow_up_of: Option<String>,
    pub legacy_closed: i64,
    pub ownership_json: Option<String>,
    /// 0 is a notice: nobody waits for a reply and nobody accepts it.
    pub expects_review: i64,
    /// While `quota_blocked`: when the quota is expected back.
    pub resume_at: Option<String>,
    pub quota_retries: i64,
    pub mission_id: Option<String>,
    pub mission_role: Option<String>,
    pub turn_error: Option<String>,
    /// `patrol` or `responder`; none is the responder.
    pub review_role: Option<String>,
    /// When the current streak of refused deliveries began.
    pub conflict_since: Option<String>,
}

/// What an `Assignment` holds.
#[verifier::ext_equal]
pub struct AssignmentView {
    pub id: Seq<char>,
    pub supervisor_id: Seq<char>,
    pub request_id: Option<Seq<char>>,
    pub target_bot_id: Seq<char>,
    pub client_request_id: Seq<char>,
    pub turn_id: Option<Seq<char>>,
    pub text: Seq<char>,
    pub status: Seq<char>,
    pub delivery: Option<Seq<char>>,
    pub result: Option<Seq<char>>,
    pub error: Option<Seq<char>>,
    pub attempts: i64,
    pub next_attempt_at: Option<Seq<char>>,
    pub created_at: Seq<char>,
    pub updated_at: Seq<char>,
    pub completed_at: Option<Seq<char>>,
    pub turn_status: Option<Seq<char>>,
    pub evidence_complete: Option<i64>,
    pub reviewed_at: Option<Seq<char>>,
    pub reviewed_by: Option<Seq<char>>,
    pub review_decision: Option<Seq<char>>,
    pub review_reason: Option<Seq<char>>,
    pub followup_assignment_id: Option<Seq<char>>,
    pub follow_up_of: Option<Seq<char>>,
    pub legacy_closed: i64,
    pub ownership_json: Option<Seq<char>>,
    pub expects_review: i64,
    pub resume_at: Option<Seq<char>>,
    pub quota_retries: i64,
    pub mission_id: Option<Seq<char>>,
    pub mission_role: Option<Seq<char>>,
    pub turn_error: Option<Seq<char>>,
    pub review_role: Option<Seq<char>>,
    pub conflict_since: Option<Seq<char>>,
}

impl View for Assignment {
    type V = AssignmentView;

    open spec fn view(&self) -> AssignmentView {
        AssignmentView {
            id: self.id@,
            supervisor_id: self.supervisor_id@,
            request_id: text::opt(self.request_id),
            target_bot_id: self.target_bot_id@,
            client_request_id: self.client_request_id@,
            turn_id: text::opt(self.turn_id),
            text: self.text@,
            status: self.status@,
            delivery: text::opt(self.delivery),
            result: text::opt(self.result),
            error: text::opt(self.error),
            attempts: self.attempts,
            next_attempt_at: text::opt(self.next_attempt_at),
            created_at: self.created_at@,
            updated_at: self.updated_at@,
            completed_at: text::opt(self.completed_at),
            turn_status: text::opt(self.turn_status),
            evidence_complete: self.evidence_complete,
            reviewed_at: text::opt(self.reviewed_at),
            reviewed_by: text::opt(self.reviewed_by),
            review_decision: text::opt(self.review_decision),
            review_reason: text::opt(self.review_reason),
            followup_assignment_id: text::opt(self.followup_assignment_id),
            follow_up_of: text::opt(self.follow_up_of),
            legacy_closed: self.legacy_closed,
            ownership_json: text::opt(self.ownership_json),
            expects_review: self.expects_review,
            resume_at: text::opt(self.resume_at),
            quota_retries: self.quota_retries,
            mission_id: text::opt(self.mission_id),
            mission_role: text::opt(self.mission_role),
            turn_error: text::opt(self.turn_error),
            review_role: text::opt(self.review_role),
            conflict_since: text::opt(self.conflict_since),
        }
    }
}

impl Row for Assignment {
    fn copied(&self) -> (r: Self) {
        Assignment {
            id: self.id.clone(),
            supervisor_id: self.supervisor_id.clone(),
            request_id: text::copied(&self.request_id),
            target_bot_id: self.target_bot_id.clone(),
            client_request_id: self.client_request_id.clone(),
            turn_id: text::copied(&self.turn_id),
            text: self.text.clone(),
            status: self.status.clone(),
            delivery: text::copied(&self.delivery),
            result: text::copied(&self.result),
            error: text::copied(&self.error),
            attempts: self.attempts,
            next_attempt_at: text::copied(&self.next_attempt_at),
            created_at: self.created_at.clone(),
            updated_at: self.updated_at.clone(),
            completed_at: text::copied(&self.completed_at),
            turn_status: text::copied(&self.turn_status),
            evidence_complete: self.evidence_complete,
            reviewed_at: text::copied(&self.reviewed_at),
            reviewed_by: text::copied(&self.reviewed_by),
            review_decision: text::copied(&self.review_decision),
            review_reason: text::copied(&self.review_reason),
            followup_assignment_id: text::copied(&self.followup_assignment_id),
            follow_up_of: text::copied(&self.follow_up_of),
            legacy_closed: self.legacy_closed,
            ownership_json: text::copied(&self.ownership_json),
            expects_review: self.expects_review,
            resume_at: text::copied(&self.resume_at),
            quota_retries: self.quota_retries,
            mission_id: text::copied(&self.mission_id),
            mission_role: text::copied(&self.mission_role),
            turn_error: text::copied(&self.turn_error),
            review_role: text::copied(&self.review_role),
            conflict_since: text::copied(&self.conflict_since),
        }
    }
}

impl Clone for Assignment {
    fn clone(&self) -> (r: Self)
        ensures
            r@ == self@,
    {
        self.copied()
    }
}

/// An event for the manager, waiting until somebody acks it.
#[derive(Debug)]
pub struct InboxEvent {
    pub id: String,
    /// Dedupe key of a replayed or re-scanned event.
    pub event_key: String,
    pub assignment_id: Option<String>,
    pub bot_id: Option<String>,
    pub turn_id: Option<String>,
    pub kind: String,
    pub payload_json: String,
    /// `pending`, `delivered`, `gave_up` or `handled`.
    pub state: String,
    pub notify_turn_id: Option<String>,
    pub notify_delivery: Option<String>,
    pub notify_attempts: i64,
    pub notify_next_at: Option<String>,
    pub notify_error: Option<String>,
    pub delivered_at: Option<String>,
    pub created_at: String,
    pub updated_at: String,
    /// `patrol` or `responder`; none is not classified yet.
    pub role: Option<String>,
    /// 0 is recorded without waking anybody.
    pub wake: Option<i64>,
    /// The role it was actually delivered to.
    pub claimed_by: Option<String>,
    pub acked_by: Option<String>,
    pub merged_into: Option<String>,
}

/// What an `InboxEvent` holds.
#[verifier::ext_equal]
pub struct InboxEventView {
    pub id: Seq<char>,
    pub event_key: Seq<char>,
    pub assignment_id: Option<Seq<char>>,
    pub bot_id: Option<Seq<char>>,
    pub turn_id: Option<Seq<char>>,
    pub kind: Seq<char>,
    pub payload_json: Seq<char>,
    pub state: Seq<char>,
    pub notify_turn_id: Option<Seq<char>>,
    pub notify_delivery: Option<Seq<char>>,
    pub notify_attempts: i64,
    pub notify_next_at: Option<Seq<char>>,
    pub notify_error: Option<Seq<char>>,
    pub delivered_at: Option<Seq<char>>,
    pub created_at: Seq<char>,
    pub updated_at: Seq<char>,
    pub role: Option<Seq<char>>,
    pub wake: Option<i64>,
    pub claimed_by: Option<Seq<char>>,
    pub acked_by: Option<Seq<char>>,
    pub merged_into: Option<Seq<char>>,
}

impl View for InboxEvent {
    type V = InboxEventView;

    open spec fn view(&self) -> InboxEventView {
        InboxEventView {
            id: self.id@,
            event_key: self.event_key@,
            assignment_id: text::opt(self.assignment_id),
            bot_id: text::opt(self.bot_id),
            turn_id: text::opt(self.turn_id),
            kind: self.kind@,
            payload_json: self.payload_json@,
            state: self.state@,
            notify_turn_id: text::opt(self.notify_turn_id),
            notify_delivery: text::opt(self.notify_delivery),
            notify_attempts: self.notify_attempts,
            notify_next_at: text::opt(self.notify_next_at),
            notify_error: text::opt(self.notify_error),
            delivered_at: text::opt(self.delivered_at),
            created_at: self.created_at@,
            updated_at: self.updated_at@,
            role: text::opt(self.role),
            wake: self.wake,
            claimed_by: text::opt(self.claimed_by),
            acked_by: text::opt(self.acked_by),
            merged_into: text::opt(self.merged_into),
        }
    }
}

impl Row for InboxEvent {
    fn copied(&self) -> (r: Self) {
        InboxEvent {
            id: self.id.clone(),
            event_key: self.event_key.clone(),
            assignment_id: text::copied(&self.assignment_id),
            bot_id: text::copied(&self.bot_id),
            turn_id: text::copied(&self.turn_id),
            kind: self.kind.clone(),
            payload_json: self.payload_json.clone(),
            state: self.state.clone(),
            notify_turn_id: text::copied(&self.notify_turn_id),
            notify_delivery: text::copied(&self.notify_delivery),
            notify_attempts: self.notify_attempts,
            notify_next_at: text::copied(&self.notify_next_at),
            notify_error: text::copied(&self.notify_error),
            delivered_at: text::copied(&self.delivered_at),
            created_at: self.created_at.clone(),
            updated_at: self.updated_at.clone(),
            role: text::copied(&self.role),
            wake: self.wake,
            claimed_by: text::copied(&self.claimed_by),
            acked_by: text::copied(&self.acked_by),
            merged_into: text::copied(&self.merged_into),
        }
    }
}

impl Clone for InboxEvent {
    fn clone(&self) -> (r: Self)
        ensures
            r@ == self@,
    {
        self.copied()
    }
}

/// The user's words behind an assignment.
#[derive(Debug)]
pub struct Request {
    pub id: String,
    pub source: String,
    /// Stable id of the source; none when the caller had none.
    pub source_key: Option<String>,
    pub text: String,
    pub status: String,
    pub created_at: String,
}

/// What a `Request` holds.
#[verifier::ext_equal]
pub struct RequestView {
    pub id: Seq<char>,
    pub source: Seq<char>,
    pub source_key: Option<Seq<char>>,
    pub text: Seq<char>,
    pub status: Seq<char>,
    pub created_at: Seq<char>,
}

impl View for Request {
    type V = RequestView;

    open spec fn view(&self) -> RequestView {
        RequestView {
            id: self.id@,
            source: self.source@,
            source_key: text::opt(self.source_key),
            text: self.text@,
            status: self.status@,
            created_at: self.created_at@,
        }
    }
}

impl Row for Request {
    fn copied(&self) -> (r: Self) {
        Request {
            id: self.id.clone(),
            source: self.source.clone(),
            source_key: text::copied(&self.source_key),
            text: self.text.clone(),
            status: self.status.clone(),
            created_at: self.created_at.clone(),
        }
    }
}

impl Clone for Request {
    fn clone(&self) -> (r: Self)
        ensures
            r@ == self@,
    {
        self.copied()
    }
}

/// A decision taken on an assignment, kept whole: who decided, on what grounds, from where.
#[derive(Debug)]
pub struct Review {
    pub id: String,
    pub assignment_id: String,
    pub decision: String,
    pub from_status: String,
    pub to_status: String,
    pub actor: String,
    pub source: String,
    pub reason: Option<String>,
    pub evidence: Option<String>,
    pub followup_assignment_id: Option<String>,
    pub created_at: String,
}

/// What a `Review` holds.
#[verifier::ext_equal]
pub struct ReviewView {
    pub id: Seq<char>,
    pub assignment_id: Seq<char>,
    pub decision: Seq<char>,
    pub from_status: Seq<char>,
    pub to_status: Seq<char>,
    pub actor: Seq<char>,
    pub source: Seq<char>,
    pub reason: Option<Seq<char>>,
    pub evidence: Option<Seq<char>>,
    pub followup_assignment_id: Option<Seq<char>>,
    pub created_at: Seq<char>,
}

impl View for Review {
    type V = ReviewView;

    open spec fn view(&self) -> ReviewView {
        ReviewView {
            id: self.id@,
            assignment_id: self.assignment_id@,
            decision: self.decision@,
            from_status: self.from_status@,
            to_status: self.to_status@,
            actor: self.actor@,
            source: self.source@,
            reason: text::opt(self.reason),
            evidence: text::opt(self.evidence),
            followup_assignment_id: text::opt(self.followup_assignment_id),
            created_at: self.created_at@,
        }
    }
}

impl Row for Review {
    fn copied(&self) -> (r: Self) {
        Review {
            id: self.id.clone(),
            assignment_id: self.assignment_id.clone(),
            decision: self.decision.clone(),
            from_status: self.from_status.clone(),
            to_status: self.to_status.clone(),
            actor: self.actor.clone(),
            source: self.source.clone(),
            reason: text::copied(&self.reason),
            evidence: text::copied(&self.evidence),
            followup_assignment_id: text::copied(&self.followup_assignment_id),
            created_at: self.created_at.clone(),
        }
    }
}

impl Clone for Review {
    fn clone(&self) -> (r: Self)
        ensures
            r@ == self@,
    {
        self.copied()
    }
}

/// An append-only audit record.
#[derive(Debug)]
pub struct Note {
    pub id: String,
    pub kind: String,
    pub body: String,
    pub version: i64,
    pub created_at: String,
}

/// What a `Note` holds.
#[verifier::ext_equal]
pub struct NoteView {
    pub id: Seq<char>,
    pub kind: Seq<char>,
    pub body: Seq<char>,
    pub version: i64,
    pub created_at: Seq<char>,
}

impl View for Note {
    type V = NoteView;

    open spec fn view(&self) -> NoteView {
        NoteView {
            id: self.id@,
            kind: self.kind@,
            body: self.body@,
            version: self.version,
            created_at: self.created_at@,
        }
    }
}

impl Row for Note {
    fn copied(&self) -> (r: Self) {
        Note {
            id: self.id.clone(),
            kind: self.kind.clone(),
            body: self.body.clone(),
            version: self.version,
            created_at: self.created_at.clone(),
        }
    }
}

impl Clone for Note {
    fn clone(&self) -> (r: Self)
        ensures
            r@ == self@,
    {
        self.copied()
    }
}

/// One step in the history of an approval, append-only.
#[derive(Debug)]
pub struct Decision {
    pub id: String,
    pub approval_id: String,
    pub from: String,
    pub to: String,
    pub actor: String,
    pub reason: Option<String>,
    pub at: String,
}

/// What a `Decision` holds.
#[verifier::ext_equal]
pub struct DecisionView {
    pub id: Seq<char>,
    pub approval_id: Seq<char>,
    pub from: Seq<char>,
    pub to: Seq<char>,
    pub actor: Seq<char>,
    pub reason: Option<Seq<char>>,
    pub at: Seq<char>,
}

impl View for Decision {
    type V = DecisionView;

    open spec fn view(&self) -> DecisionView {
        DecisionView {
            id: self.id@,
            approval_id: self.approval_id@,
            from: self.from@,
            to: self.to@,
            actor: self.actor@,
            reason: text::opt(self.reason),
            at: self.at@,
        }
    }
}

impl Row for Decision {
    fn copied(&self) -> (r: Self) {
        Decision {
            id: self.id.clone(),
            approval_id: self.approval_id.clone(),
            from: self.from.clone(),
            to: self.to.clone(),
            actor: self.actor.clone(),
            reason: text::copied(&self.reason),
            at: self.at.clone(),
        }
    }
}

impl Clone for Decision {
    fn clone(&self) -> (r: Self)
        ensures
            r@ == self@,
    {
        self.copied()
    }
}

/// A rebuild or restart permission: who asked, for what, against which commit, until when, and who decided.
#[derive(Debug)]
pub struct Approval {
    pub id: String,
    pub supervisor_id: String,
    pub requester: String,
    /// What the approval is for; a lease can only be taken on the resource it names.
    pub purpose: String,
    pub scope: String,
    /// The commit the approval was granted against.
    pub target_commit: Option<String>,
    /// `pending`, `approved`, `denied`, `revoked`, `consumed` or `superseded`.
    pub status: String,
    pub decided_by: Option<String>,
    pub decided_at: Option<String>,
    pub reason: Option<String>,
    pub expires_at: Option<String>,
    /// Stable id given by the caller: sent again it finds this row.
    pub client_request_id: Option<String>,
    pub created_at: String,
    pub updated_at: String,
    /// Where the wait began that this one took over from the approval it superseded.
    pub wait_since: Option<String>,
    /// Why the requester asked.
    pub request_reason: Option<String>,
}

/// What an `Approval` holds.
#[verifier::ext_equal]
pub struct ApprovalView {
    pub id: Seq<char>,
    pub supervisor_id: Seq<char>,
    pub requester: Seq<char>,
    pub purpose: Seq<char>,
    pub scope: Seq<char>,
    pub target_commit: Option<Seq<char>>,
    pub status: Seq<char>,
    pub decided_by: Option<Seq<char>>,
    pub decided_at: Option<Seq<char>>,
    pub reason: Option<Seq<char>>,
    pub expires_at: Option<Seq<char>>,
    pub client_request_id: Option<Seq<char>>,
    pub created_at: Seq<char>,
    pub updated_at: Seq<char>,
    pub wait_since: Option<Seq<char>>,
    pub request_reason: Option<Seq<char>>,
}

impl View for Approval {
    type V = ApprovalView;

    open spec fn view(&self) -> ApprovalView {
        ApprovalView {
            id: self.id@,
            supervisor_id: self.supervisor_id@,
            requester: self.requester@,
            purpose: self.purpose@,
            scope: self.scope@,
            target_commit: text::opt(self.target_commit),
            status: self.status@,
            decided_by: text::opt(self.decided_by),
            decided_at: text::opt(self.decided_at),
            reason: text::opt(self.reason),
            expires_at: text::opt(self.expires_at),
            client_request_id: text::opt(self.client_request_id),
            created_at: self.created_at@,
            updated_at: self.updated_at@,
            wait_since: text::opt(self.wait_since),
            request_reason: text::opt(self.request_reason),
        }
    }
}

impl Row for Approval {
    fn copied(&self) -> (r: Self) {
        Approval {
            id: self.id.clone(),
            supervisor_id: self.supervisor_id.clone(),
            requester: self.requester.clone(),
            purpose: self.purpose.clone(),
            scope: self.scope.clone(),
            target_commit: text::copied(&self.target_commit),
            status: self.status.clone(),
            decided_by: text::copied(&self.decided_by),
            decided_at: text::copied(&self.decided_at),
            reason: text::copied(&self.reason),
            expires_at: text::copied(&self.expires_at),
            client_request_id: text::copied(&self.client_request_id),
            created_at: self.created_at.clone(),
            updated_at: self.updated_at.clone(),
            wait_since: text::copied(&self.wait_since),
            request_reason: text::copied(&self.request_reason),
        }
    }
}

impl Clone for Approval {
    fn clone(&self) -> (r: Self)
        ensures
            r@ == self@,
    {
        self.copied()
    }
}

/// The lease on one resource. There is one row per resource, ever.
#[derive(Debug)]
pub struct Lease {
    pub resource: String,
    pub owner: Option<String>,
    pub approval_id: Option<String>,
    /// Goes up on every acquire, so that a holder of an older one is refused.
    pub fence: i64,
    pub target_commit: Option<String>,
    pub acquired_at: Option<String>,
    pub expires_at: Option<String>,
    pub released_at: Option<String>,
    /// The proof handed out once, on acquire.
    pub lease_token: Option<String>,
    pub detail_json: String,
}

/// What a `Lease` holds.
#[verifier::ext_equal]
pub struct LeaseView {
    pub resource: Seq<char>,
    pub owner: Option<Seq<char>>,
    pub approval_id: Option<Seq<char>>,
    pub fence: i64,
    pub target_commit: Option<Seq<char>>,
    pub acquired_at: Option<Seq<char>>,
    pub expires_at: Option<Seq<char>>,
    pub released_at: Option<Seq<char>>,
    pub lease_token: Option<Seq<char>>,
    pub detail_json: Seq<char>,
}

impl View for Lease {
    type V = LeaseView;

    open spec fn view(&self) -> LeaseView {
        LeaseView {
            resource: self.resource@,
            owner: text::opt(self.owner),
            approval_id: text::opt(self.approval_id),
            fence: self.fence,
            target_commit: text::opt(self.target_commit),
            acquired_at: text::opt(self.acquired_at),
            expires_at: text::opt(self.expires_at),
            released_at: text::opt(self.released_at),
            lease_token: text::opt(self.lease_token),
            detail_json: self.detail_json@,
        }
    }
}

impl Row for Lease {
    fn copied(&self) -> (r: Self) {
        Lease {
            resource: self.resource.clone(),
            owner: text::copied(&self.owner),
            approval_id: text::copied(&self.approval_id),
            fence: self.fence,
            target_commit: text::copied(&self.target_commit),
            acquired_at: text::copied(&self.acquired_at),
            expires_at: text::copied(&self.expires_at),
            released_at: text::copied(&self.released_at),
            lease_token: text::copied(&self.lease_token),
            detail_json: self.detail_json.clone(),
        }
    }
}

impl Clone for Lease {
    fn clone(&self) -> (r: Self)
        ensures
            r@ == self@,
    {
        self.copied()
    }
}

/// Something that is wrong: one row per resource, not one per observation.
#[derive(Debug)]
pub struct Incident {
    pub id: String,
    pub supervisor_id: String,
    pub kind: String,
    pub resource: String,
    pub severity: String,
    /// `open` or `resolved`.
    pub status: String,
    pub detail_json: String,
    pub occurrences: i64,
    pub first_seen_at: String,
    pub last_seen_at: String,
    pub resolved_at: Option<String>,
}

/// What an `Incident` holds.
#[verifier::ext_equal]
pub struct IncidentView {
    pub id: Seq<char>,
    pub supervisor_id: Seq<char>,
    pub kind: Seq<char>,
    pub resource: Seq<char>,
    pub severity: Seq<char>,
    pub status: Seq<char>,
    pub detail_json: Seq<char>,
    pub occurrences: i64,
    pub first_seen_at: Seq<char>,
    pub last_seen_at: Seq<char>,
    pub resolved_at: Option<Seq<char>>,
}

impl View for Incident {
    type V = IncidentView;

    open spec fn view(&self) -> IncidentView {
        IncidentView {
            id: self.id@,
            supervisor_id: self.supervisor_id@,
            kind: self.kind@,
            resource: self.resource@,
            severity: self.severity@,
            status: self.status@,
            detail_json: self.detail_json@,
            occurrences: self.occurrences,
            first_seen_at: self.first_seen_at@,
            last_seen_at: self.last_seen_at@,
            resolved_at: text::opt(self.resolved_at),
        }
    }
}

impl Row for Incident {
    fn copied(&self) -> (r: Self) {
        Incident {
            id: self.id.clone(),
            supervisor_id: self.supervisor_id.clone(),
            kind: self.kind.clone(),
            resource: self.resource.clone(),
            severity: self.severity.clone(),
            status: self.status.clone(),
            detail_json: self.detail_json.clone(),
            occurrences: self.occurrences,
            first_seen_at: self.first_seen_at.clone(),
            last_seen_at: self.last_seen_at.clone(),
            resolved_at: text::copied(&self.resolved_at),
        }
    }
}

impl Clone for Incident {
    fn clone(&self) -> (r: Self)
        ensures
            r@ == self@,
    {
        self.copied()
    }
}

/// What is kept per role: its bot, its runtime, its watchdog and its wake-up statistics.
#[derive(Debug)]
pub struct RoleRow {
    pub role: String,
    pub bot_id: Option<String>,
    pub project_id: Option<String>,
    pub cwd: Option<String>,
    pub identity: String,
    pub model: String,
    pub effort: String,
    pub desired_running: i64,
    pub status: String,
    pub status_detail: Option<String>,
    pub quota_reset_at: Option<String>,
    pub watchdog_attempts: i64,
    pub watchdog_next_at: Option<String>,
    pub watchdog_gave_up_at: Option<String>,
    pub watchdog_last_error: Option<String>,
    pub last_notify_at: Option<String>,
    /// When the next attempt is due after a failed one or while the quota is out.
    pub notify_next_at: Option<String>,
    pub last_wake_at: Option<String>,
    pub last_wake_reason: Option<String>,
    pub wakes: i64,
    pub events_delivered: i64,
    pub duplicates: i64,
    pub merged: i64,
    pub persona_text: Option<String>,
    pub persona_version: i64,
    pub persona_hash: Option<String>,
    pub persona_source: Option<String>,
    pub persona_updated_at: Option<String>,
    pub persona_seed_hash: Option<String>,
    /// When the wait for quota began.
    pub waiting_since: Option<String>,
    pub created_at: String,
    pub updated_at: String,
}

/// What a `RoleRow` holds.
#[verifier::ext_equal]
pub struct RoleRowView {
    pub role: Seq<char>,
    pub bot_id: Option<Seq<char>>,
    pub project_id: Option<Seq<char>>,
    pub cwd: Option<Seq<char>>,
    pub identity: Seq<char>,
    pub model: Seq<char>,
    pub effort: Seq<char>,
    pub desired_running: i64,
    pub status: Seq<char>,
    pub status_detail: Option<Seq<char>>,
    pub quota_reset_at: Option<Seq<char>>,
    pub watchdog_attempts: i64,
    pub watchdog_next_at: Option<Seq<char>>,
    pub watchdog_gave_up_at: Option<Seq<char>>,
    pub watchdog_last_error: Option<Seq<char>>,
    pub last_notify_at: Option<Seq<char>>,
    pub notify_next_at: Option<Seq<char>>,
    pub last_wake_at: Option<Seq<char>>,
    pub last_wake_reason: Option<Seq<char>>,
    pub wakes: i64,
    pub events_delivered: i64,
    pub duplicates: i64,
    pub merged: i64,
    pub persona_text: Option<Seq<char>>,
    pub persona_version: i64,
    pub persona_hash: Option<Seq<char>>,
    pub persona_source: Option<Seq<char>>,
    pub persona_updated_at: Option<Seq<char>>,
    pub persona_seed_hash: Option<Seq<char>>,
    pub waiting_since: Option<Seq<char>>,
    pub created_at: Seq<char>,
    pub updated_at: Seq<char>,
}

impl View for RoleRow {
    type V = RoleRowView;

    open spec fn view(&self) -> RoleRowView {
        RoleRowView {
            role: self.role@,
            bot_id: text::opt(self.bot_id),
            project_id: text::opt(self.project_id),
            cwd: text::opt(self.cwd),
            identity: self.identity@,
            model: self.model@,
            effort: self.effort@,
            desired_running: self.desired_running,
            status: self.status@,
            status_detail: text::opt(self.status_detail),
            quota_reset_at: text::opt(self.quota_reset_at),
            watchdog_attempts: self.watchdog_attempts,
            watchdog_next_at: text::opt(self.watchdog_next_at),
            watchdog_gave_up_at: text::opt(self.watchdog_gave_up_at),
            watchdog_last_error: text::opt(self.watchdog_last_error),
            last_notify_at: text::opt(self.last_notify_at),
            notify_next_at: text::opt(self.notify_next_at),
            last_wake_at: text::opt(self.last_wake_at),
            last_wake_reason: text::opt(self.last_wake_reason),
            wakes: self.wakes,
            events_delivered: self.events_delivered,
            duplicates: self.duplicates,
            merged: self.merged,
            persona_text: text::opt(self.persona_text),
            persona_version: self.persona_version,
            persona_hash: text::opt(self.persona_hash),
            persona_source: text::opt(self.persona_source),
            persona_updated_at: text::opt(self.persona_updated_at),
            persona_seed_hash: text::opt(self.persona_seed_hash),
            waiting_since: text::opt(self.waiting_since),
            created_at: self.created_at@,
            updated_at: self.updated_at@,
        }
    }
}

impl Row for RoleRow {
    fn copied(&self) -> (r: Self) {
        RoleRow {
            role: self.role.clone(),
            bot_id: text::copied(&self.bot_id),
            project_id: text::copied(&self.project_id),
            cwd: text::copied(&self.cwd),
            identity: self.identity.clone(),
            model: self.model.clone(),
            effort: self.effort.clone(),
            desired_running: self.desired_running,
            status: self.status.clone(),
            status_detail: text::copied(&self.status_detail),
            quota_reset_at: text::copied(&self.quota_reset_at),
            watchdog_attempts: self.watchdog_attempts,
            watchdog_next_at: text::copied(&self.watchdog_next_at),
            watchdog_gave_up_at: text::copied(&self.watchdog_gave_up_at),
            watchdog_last_error: text::copied(&self.watchdog_last_error),
            last_notify_at: text::copied(&self.last_notify_at),
            notify_next_at: text::copied(&self.notify_next_at),
            last_wake_at: text::copied(&self.last_wake_at),
            last_wake_reason: text::copied(&self.last_wake_reason),
            wakes: self.wakes,
            events_delivered: self.events_delivered,
            duplicates: self.duplicates,
            merged: self.merged,
            persona_text: text::copied(&self.persona_text),
            persona_version: self.persona_version,
            persona_hash: text::copied(&self.persona_hash),
            persona_source: text::copied(&self.persona_source),
            persona_updated_at: text::copied(&self.persona_updated_at),
            persona_seed_hash: text::copied(&self.persona_seed_hash),
            waiting_since: text::copied(&self.waiting_since),
            created_at: self.created_at.clone(),
            updated_at: self.updated_at.clone(),
        }
    }
}

impl Clone for RoleRow {
    fn clone(&self) -> (r: Self)
        ensures
            r@ == self@,
    {
        self.copied()
    }
}

} // verus!
