//! The authoritative record behind the manager: every fact it may rely on lives in these tables.
//!
//! Each operation is one transaction on the tables. What it needs from outside, the time and fresh
//! ids, is handed in.
use crate::persona;
use crate::rows::{
    Approval, ApprovalView, Assignment, AssignmentView, Decision, DecisionView, InboxEvent, InboxEventView, Incident,
    IncidentView, Lease, LeaseView, Note, NoteView, Request, RequestView, Review, ReviewView, RoleRow, RoleRowView,
    Supervisor, SupervisorView,
};
use crate::table;
use crate::text;
use vstd::prelude::*;

verus! {

/// There is exactly one supervisor, and its id is stable across restarts and model switches.
pub const SUPERVISOR_ID: &'static str = "AGM";

/// The tables.
pub struct Store {
    pub supervisor: Option<Supervisor>,
    pub requests: Vec<Request>,
    pub assignments: Vec<Assignment>,
    pub reviews: Vec<Review>,
    pub inbox: Vec<InboxEvent>,
    pub incidents: Vec<Incident>,
    pub approvals: Vec<Approval>,
    pub decisions: Vec<Decision>,
    pub leases: Vec<Lease>,
    pub notes: Vec<Note>,
    pub roles: Vec<RoleRow>,
}

/// What the tables hold, each in the order its rows were written.
#[verifier::ext_equal]
pub struct StoreView {
    pub supervisor: Option<SupervisorView>,
    pub requests: Seq<RequestView>,
    pub assignments: Seq<AssignmentView>,
    pub reviews: Seq<ReviewView>,
    pub inbox: Seq<InboxEventView>,
    pub incidents: Seq<IncidentView>,
    pub approvals: Seq<ApprovalView>,
    pub decisions: Seq<DecisionView>,
    pub leases: Seq<LeaseView>,
    pub notes: Seq<NoteView>,
    pub roles: Seq<RoleRowView>,
}

impl View for Store {
    type V = StoreView;

    open spec fn view(&self) -> StoreView {
        StoreView {
            supervisor: table::opt_view(self.supervisor),
            requests: table::views(self.requests@),
            assignments: table::views(self.assignments@),
            reviews: table::views(self.reviews@),
            inbox: table::views(self.inbox@),
            incidents: table::views(self.incidents@),
            approvals: table::views(self.approvals@),
            decisions: table::views(self.decisions@),
            leases: table::views(self.leases@),
            notes: table::views(self.notes@),
            roles: table::views(self.roles@),
        }
    }
}

/// Why an operation did not happen. Nothing was written.
#[derive(Debug, Clone, Copy, PartialEq, Eq, Structural)]
pub enum StoreError {
    /// The supervisor row does not exist.
    NoSupervisor,
    /// A row with this id exists.
    IdTaken,
    /// Another row holds this request id.
    RequestIdTaken,
    /// The payload is not a JSON object.
    PayloadNotAnObject,
    /// The assignment cannot move from where it is to where it was sent.
    IllegalMove,
}

impl Store {
    /// Empty tables.
    pub fn new() -> (r: Store)
        ensures
            r@ == (StoreView {
                supervisor: None,
                requests: seq![],
                assignments: seq![],
                reviews: seq![],
                inbox: seq![],
                incidents: seq![],
                approvals: seq![],
                decisions: seq![],
                leases: seq![],
                notes: seq![],
                roles: seq![],
            }),
    {
        Store {
            supervisor: None,
            requests: Vec::new(),
            assignments: Vec::new(),
            reviews: Vec::new(),
            inbox: Vec::new(),
            incidents: Vec::new(),
            approvals: Vec::new(),
            decisions: Vec::new(),
            leases: Vec::new(),
            notes: Vec::new(),
            roles: Vec::new(),
        }
    }
}

// ---------------------------------------------------------------- supervisor row

impl Supervisor {
    pub fn wants_running(&self) -> (r: bool)
        ensures r == (self@.desired_running != 0)
        {
        self.desired_running != 0
    }
}

/// The row of a supervisor that nothing is set up for yet.
pub open spec fn fresh_supervisor(now: Seq<char>) -> SupervisorView {
    SupervisorView {
        id: "AGM"@,
        bot_id: None,
        project_id: None,
        cwd: None,
        identity: "cc0"@,
        effort: "low"@,
        active_model: "fable"@,
        generation: 0,
        status: ""@,
        status_detail: None,
        fallback_tries: 0,
        cooldown_until: None,
        quota_reset_at: None,
        remote_status: "unknown"@,
        remote_url: None,
        summary: None,
        summary_version: 0,
        desired_running: 0,
        watchdog_attempts: 0,
        watchdog_next_at: None,
        last_notify_at: None,
        persona_text: None,
        persona_version: 0,
        persona_hash: None,
        persona_source: None,
        persona_updated_at: None,
        persona_seed_hash: None,
        remote_source: None,
        remote_observed_at: None,
        remote_session_id: None,
        remote_actor: None,
        remote_evidence: None,
        watchdog_gave_up_at: None,
        watchdog_last_error: None,
        created_at: now,
        updated_at: now,
    }
}

/// The store with its supervisor row, where there is one, turned into what `to` makes of it.
pub open spec fn with_supervisor(s: StoreView, to: spec_fn(SupervisorView) -> SupervisorView) -> StoreView {
    StoreView {
        supervisor: match s.supervisor {
            Some(r) => Some(to(r)),
            None => None,
        },
        ..s
    }
}

/// What reading the supervisor row answers and leaves in the store.
pub open spec fn reading(s: StoreView, now: Seq<char>, r: SupervisorView, after: StoreView) -> bool {
    &&& r == match s.supervisor {
        Some(row) => row,
        None => fresh_supervisor(now),
    }
    &&& after == (StoreView { supervisor: Some(r), ..s })
}

/// Read the one supervisor row, creating the "nothing set up yet" default on the first call.
pub fn get_or_init(s: &mut Store, now: &str) -> (r: Supervisor)
    ensures
        reading(old(s)@, now@, r@, final(s)@),
{
    match &s.supervisor {
        Some(row) => row.clone(),
        None => {
            let row = Supervisor {
                id: SUPERVISOR_ID.to_owned(),
                bot_id: None,
                project_id: None,
                cwd: None,
                identity: "cc0".to_owned(),
                effort: "low".to_owned(),
                active_model: "fable".to_owned(),
                generation: 0,
                status: "".to_owned(),
                status_detail: None,
                fallback_tries: 0,
                cooldown_until: None,
                quota_reset_at: None,
                remote_status: "unknown".to_owned(),
                remote_url: None,
                summary: None,
                summary_version: 0,
                desired_running: 0,
                watchdog_attempts: 0,
                watchdog_next_at: None,
                last_notify_at: None,
                persona_text: None,
                persona_version: 0,
                persona_hash: None,
                persona_source: None,
                persona_updated_at: None,
                persona_seed_hash: None,
                remote_source: None,
                remote_observed_at: None,
                remote_session_id: None,
                remote_actor: None,
                remote_evidence: None,
                watchdog_gave_up_at: None,
                watchdog_last_error: None,
                created_at: now.to_owned(),
                updated_at: now.to_owned(),
            };
            s.supervisor = Some(row.clone());
            row
        },
    }
}

/// The store with where the manager works.
pub open spec fn env_set(s: StoreView, now: Seq<char>, bot_id: Seq<char>, project_id: Seq<char>, cwd: Seq<char>) -> StoreView {
    with_supervisor(
        s,
        |r: SupervisorView|
            (SupervisorView {
                bot_id: Some(bot_id),
                project_id: Some(project_id),
                cwd: Some(cwd),
                updated_at: now,
                ..r
            }),
    )
}

pub fn set_env(s: &mut Store, now: &str, bot_id: &str, project_id: &str, cwd: &str)
    ensures
        final(s)@ == env_set(old(s)@, now@, bot_id@, project_id@, cwd@),
{
    if let Some(r) = s.supervisor.take() {
        s.supervisor = Some(
            Supervisor {
                bot_id: Some(bot_id.to_owned()),
                project_id: Some(project_id.to_owned()),
                cwd: Some(cwd.to_owned()),
                updated_at: now.to_owned(),
                ..r
            },
        );
    }
}

/// The store with the manager's state.
pub open spec fn status_set(s: StoreView, now: Seq<char>, status: Seq<char>, detail: Option<Seq<char>>) -> StoreView {
    with_supervisor(
        s,
        |r: SupervisorView|
            (SupervisorView {
                status: status,
                status_detail: detail,
                updated_at: now,
                ..r
            }),
    )
}

/// Set the sticky status and its human-readable detail.
pub fn set_status(s: &mut Store, now: &str, status: &str, detail: Option<&str>)
    ensures
        final(s)@ == status_set(old(s)@, now@, status@, text::arg(detail)),
{
    if let Some(r) = s.supervisor.take() {
        s.supervisor = Some(
            Supervisor {
                status: status.to_owned(),
                status_detail: text::owned(detail),
                updated_at: now.to_owned(),
                ..r
            },
        );
    }
}

/// The store with the detail of the manager's state.
pub open spec fn detail_set(s: StoreView, now: Seq<char>, detail: Option<Seq<char>>) -> StoreView {
    with_supervisor(
        s,
        |r: SupervisorView|
            (SupervisorView {
                status_detail: detail,
                updated_at: now,
                ..r
            }),
    )
}

/// Change only the human-readable detail; the sticky `status` stays what it is.
pub fn set_status_detail(s: &mut Store, now: &str, detail: Option<&str>)
    ensures
        final(s)@ == detail_set(old(s)@, now@, text::arg(detail)),
{
    if let Some(r) = s.supervisor.take() {
        s.supervisor = Some(
            Supervisor {
                status_detail: text::owned(detail),
                updated_at: now.to_owned(),
                ..r
            },
        );
    }
}

/// The store after the manager was started or stopped by hand.
pub open spec fn wanted_set(s: StoreView, now: Seq<char>, wanted: bool) -> StoreView {
    with_supervisor(
        s,
        |r: SupervisorView|
            (SupervisorView {
                desired_running: if wanted { 1 } else { 0 },
                watchdog_attempts: 0,
                watchdog_next_at: None,
                watchdog_gave_up_at: None,
                watchdog_last_error: None,
                updated_at: now,
                ..r
            }),
    )
}

/// `start` is true, `stop` is false. Either one is a fresh decision by the user, so the watchdog's
/// failure count starts over with it. `Ok` means that the watchdog will read this intent after a restart.
pub fn set_desired_running(s: &mut Store, now: &str, wanted: bool) -> (res: Result<(), StoreError>)
    ensures
        final(s)@ == wanted_set(old(s)@, now@, wanted),
        res == (if old(s)@.supervisor is Some {
            Ok::<(), StoreError>(())
        } else {
            Err(StoreError::NoSupervisor)
        }),
{
    if let Some(r) = s.supervisor.take() {
        s.supervisor = Some(
            Supervisor {
                desired_running: if wanted { 1 } else { 0 },
                watchdog_attempts: 0,
                watchdog_next_at: None,
                watchdog_gave_up_at: None,
                watchdog_last_error: None,
                updated_at: now.to_owned(),
                ..r
            },
        );
        Ok(())
    } else {
        Err(StoreError::NoSupervisor)
    }
}

/// The store with the count of the manager's watchdog.
pub open spec fn watchdog_set(s: StoreView, now: Seq<char>, attempts: i64, next_at: Option<Seq<char>>) -> StoreView {
    with_supervisor(
        s,
        |r: SupervisorView|
            (SupervisorView {
                watchdog_attempts: attempts,
                watchdog_next_at: next_at,
                watchdog_gave_up_at: if attempts == 0 { None } else { r.watchdog_gave_up_at },
                watchdog_last_error: if attempts == 0 { None } else { r.watchdog_last_error },
                updated_at: now,
                ..r
            }),
    )
}

/// Resetting the streak also clears the record of having given up, so a later outage is reported as a
/// new one.
pub fn set_watchdog(s: &mut Store, now: &str, attempts: i64, next_at: Option<&str>)
    ensures
        final(s)@ == watchdog_set(old(s)@, now@, attempts, text::arg(next_at)),
{
    if let Some(r) = s.supervisor.take() {
        s.supervisor = Some(
            Supervisor {
                watchdog_attempts: attempts,
                watchdog_next_at: text::owned(next_at),
                watchdog_gave_up_at: if attempts == 0 { None } else { r.watchdog_gave_up_at },
                watchdog_last_error: if attempts == 0 { None } else { r.watchdog_last_error },
                updated_at: now.to_owned(),
                ..r
            },
        );
    }
}

/// What giving up on the manager answers and leaves in the store.
pub open spec fn giving_up(s: StoreView, now: Seq<char>, why: Seq<char>, first: bool, after: StoreView) -> bool {
    &&& first == (s.supervisor matches Some(r) && r.watchdog_gave_up_at is None)
    &&& after == if first {
        with_supervisor(
            s,
            |r: SupervisorView|
                (SupervisorView {
                    watchdog_gave_up_at: Some(now),
                    watchdog_last_error: Some(why),
                    updated_at: now,
                    ..r
                }),
        )
    } else {
        s
    }
}

/// Record that the watchdog has stopped retrying. True only for the first call to say so.
pub fn mark_watchdog_gave_up(s: &mut Store, now: &str, why: &str) -> (res: bool)
    ensures
        giving_up(old(s)@, now@, why@, res, final(s)@),
{
    match s.supervisor.take() {
        None => false,
        Some(r) => {
            if r.watchdog_gave_up_at.is_none() {
                s.supervisor = Some(
            Supervisor {
                watchdog_gave_up_at: Some(now.to_owned()),
                watchdog_last_error: Some(why.to_owned()),
                updated_at: now.to_owned(),
                ..r
            },
        );
                true
            } else {
                s.supervisor = Some(r);
                false
            }
        },
    }
}

/// The store after the manager was woken.
pub open spec fn notified_at(s: StoreView, now: Seq<char>, at: Seq<char>) -> StoreView {
    with_supervisor(
        s,
        |r: SupervisorView|
            (SupervisorView {
                last_notify_at: Some(at),
                updated_at: now,
                ..r
            }),
    )
}

/// Record that the manager was just woken. Only a notification that landed may start the next window.
pub fn set_last_notify(s: &mut Store, now: &str, at: &str)
    ensures
        final(s)@ == notified_at(old(s)@, now@, at@),
{
    if let Some(r) = s.supervisor.take() {
        s.supervisor = Some(
            Supervisor {
                last_notify_at: Some(at.to_owned()),
                updated_at: now.to_owned(),
                ..r
            },
        );
    }
}

/// The store with a persona.
pub open spec fn persona_set(s: StoreView, now: Seq<char>, persona: Seq<char>, source: Seq<char>, seed_hash: Option<Seq<char>>) -> StoreView {
    with_supervisor(
        s,
        |r: SupervisorView|
            (SupervisorView {
                persona_text: Some(persona),
                persona_hash: Some(persona::hash_text(persona)),
                persona_source: Some(source),
                persona_updated_at: Some(now),
                persona_seed_hash: if seed_hash is Some { seed_hash } else { r.persona_seed_hash },
                persona_version: table::bumped(r.persona_version),
                updated_at: now,
                ..r
            }),
    )
}

/// The answer with the version of the persona.
pub open spec fn version_told(s: StoreView) -> Result<i64, StoreError> {
    match s.supervisor {
        Some(r) => Ok(r.persona_version),
        None => Err(StoreError::NoSupervisor),
    }
}

/// The answer with the generation.
pub open spec fn generation_told(s: StoreView) -> Result<i64, StoreError> {
    match s.supervisor {
        Some(r) => Ok(r.generation),
        None => Err(StoreError::NoSupervisor),
    }
}

/// Write the persona, bumping its version. `seed_hash` records which embedded text it came from, so
/// that a newer embedded version stays distinguishable from a deliberate customisation.
pub fn set_persona(s: &mut Store, now: &str, persona: &str, source: &str, seed_hash: Option<&str>) -> (res: Result<i64, StoreError>)
    ensures
        final(s)@ == persona_set(old(s)@, now@, persona@, source@, text::arg(seed_hash)),
        res == version_told(final(s)@),
{
    if let Some(r) = s.supervisor.take() {
        let v: i64 = table::bump(r.persona_version);
        s.supervisor = Some(
            Supervisor {
                persona_text: Some(persona.to_owned()),
                persona_hash: Some(persona::hash(persona)),
                persona_source: Some(source.to_owned()),
                persona_updated_at: Some(now.to_owned()),
                persona_seed_hash: match seed_hash {
                    Some(h) => Some(h.to_owned()),
                    None => r.persona_seed_hash,
                },
                persona_version: v,
                updated_at: now.to_owned(),
                ..r
            },
        );
        Ok(v)
    } else {
        Err(StoreError::NoSupervisor)
    }
}

/// What seeding a persona answers and leaves in the store.
pub open spec fn seeding(
    s: StoreView,
    now: Seq<char>,
    persona: Seq<char>,
    source: Seq<char>,
    embedded: Seq<char>,
    seeded: bool,
    after: StoreView,
) -> bool {
    &&& seeded == (s.supervisor matches Some(r) && unset(r.persona_text))
    &&& after == if seeded {
        with_supervisor(
            s,
            |r: SupervisorView|
                (SupervisorView {
                    persona_text: Some(persona),
                    persona_hash: Some(persona::hash_text(persona)),
                    persona_source: Some(source),
                    persona_updated_at: Some(now),
                    persona_seed_hash: Some(persona::hash_text(embedded)),
                    persona_version: table::bumped(r.persona_version),
                    updated_at: now,
                    ..r
                }),
        )
    } else {
        s
    }
}

/// Seed the persona only if there is none: a first install gets this text, every later one keeps what
/// it has. The hash of the embedded text is recorded apart from it.
pub fn seed_persona_from(s: &mut Store, now: &str, persona: &str, source: &str, embedded: &str) -> (res: bool)
    ensures
        seeding(old(s)@, now@, persona@, source@, embedded@, res, final(s)@),
{
    match s.supervisor.take() {
        None => false,
        Some(r) => {
            if is_unset(&r.persona_text) {
                s.supervisor = Some(
            Supervisor {
                persona_text: Some(persona.to_owned()),
                persona_hash: Some(persona::hash(persona)),
                persona_source: Some(source.to_owned()),
                persona_updated_at: Some(now.to_owned()),
                persona_seed_hash: Some(persona::hash(embedded)),
                persona_version: table::bump(r.persona_version),
                updated_at: now.to_owned(),
                ..r
            },
        );
                true
            } else {
                s.supervisor = Some(r);
                false
            }
        },
    }
}

/// The store with what was observed of the remote entry point.
pub open spec fn remote_set(s: StoreView, now: Seq<char>, status: Seq<char>, url: Option<Seq<char>>, source: Seq<char>, session_id: Option<Seq<char>>, actor: Option<Seq<char>>, evidence: Option<Seq<char>>) -> StoreView {
    with_supervisor(
        s,
        |r: SupervisorView|
            (SupervisorView {
                remote_status: status,
                remote_url: url,
                remote_source: Some(source),
                remote_session_id: session_id,
                remote_actor: actor,
                remote_evidence: evidence,
                remote_observed_at: Some(now),
                updated_at: now,
                ..r
            }),
    )
}

/// Record what is known about the remote entry point, and where it came from. `session_id` binds the
/// claim to the run it was made against.
pub fn set_remote_observed(s: &mut Store, now: &str, status: &str, url: Option<&str>, source: &str, session_id: Option<&str>, actor: Option<&str>, evidence: Option<&str>)
    ensures
        final(s)@ == remote_set(old(s)@, now@, status@, text::arg(url), source@, text::arg(session_id), text::arg(actor), text::arg(evidence)),
{
    if let Some(r) = s.supervisor.take() {
        s.supervisor = Some(
            Supervisor {
                remote_status: status.to_owned(),
                remote_url: text::owned(url),
                remote_source: Some(source.to_owned()),
                remote_session_id: text::owned(session_id),
                remote_actor: text::owned(actor),
                remote_evidence: text::owned(evidence),
                remote_observed_at: Some(now.to_owned()),
                updated_at: now.to_owned(),
                ..r
            },
        );
    }
}

/// The store after the manager moved to another model.
pub open spec fn model_set(s: StoreView, now: Seq<char>, model: Seq<char>, cooldown_until: Option<Seq<char>>) -> StoreView {
    with_supervisor(
        s,
        |r: SupervisorView|
            (SupervisorView {
                active_model: model,
                generation: table::bumped(r.generation),
                fallback_tries: table::bumped(r.fallback_tries),
                cooldown_until: cooldown_until,
                updated_at: now,
                ..r
            }),
    )
}

/// A candidate switch was applied: the new model is recorded, the generation bump retires the
/// controller of the old one, and the switch is counted.
pub fn set_active_model(s: &mut Store, now: &str, model: &str, cooldown_until: Option<&str>) -> (res: Result<i64, StoreError>)
    ensures
        final(s)@ == model_set(old(s)@, now@, model@, text::arg(cooldown_until)),
        res == generation_told(final(s)@),
{
    if let Some(r) = s.supervisor.take() {
        let v: i64 = table::bump(r.generation);
        s.supervisor = Some(
            Supervisor {
                active_model: model.to_owned(),
                generation: v,
                fallback_tries: table::bump(r.fallback_tries),
                cooldown_until: text::owned(cooldown_until),
                updated_at: now.to_owned(),
                ..r
            },
        );
        Ok(v)
    } else {
        Err(StoreError::NoSupervisor)
    }
}

/// The store under the next generation.
pub open spec fn generation_bumped(s: StoreView, now: Seq<char>) -> StoreView {
    with_supervisor(
        s,
        |r: SupervisorView|
            (SupervisorView {
                generation: table::bumped(r.generation),
                updated_at: now,
                ..r
            }),
    )
}

/// Retire whatever controller is running for the current generation.
pub fn bump_generation(s: &mut Store, now: &str) -> (res: Result<i64, StoreError>)
    ensures
        final(s)@ == generation_bumped(old(s)@, now@),
        res == generation_told(final(s)@),
{
    if let Some(r) = s.supervisor.take() {
        let v: i64 = table::bump(r.generation);
        s.supervisor = Some(
            Supervisor {
                generation: v,
                updated_at: now.to_owned(),
                ..r
            },
        );
        Ok(v)
    } else {
        Err(StoreError::NoSupervisor)
    }
}

/// The store with no switch counted.
pub open spec fn budget_cleared(s: StoreView, now: Seq<char>) -> StoreView {
    with_supervisor(
        s,
        |r: SupervisorView|
            (SupervisorView {
                fallback_tries: 0,
                cooldown_until: None,
                updated_at: now,
                ..r
            }),
    )
}

/// Clear the bounded-retry budget once the cooldown has passed, so a later failure gets its own switch.
pub fn clear_fallback_budget(s: &mut Store, now: &str)
    ensures
        final(s)@ == budget_cleared(old(s)@, now@),
{
    if let Some(r) = s.supervisor.take() {
        s.supervisor = Some(
            Supervisor {
                fallback_tries: 0,
                cooldown_until: None,
                updated_at: now.to_owned(),
                ..r
            },
        );
    }
}

/// The store with when quota comes back.
pub open spec fn reset_set(s: StoreView, now: Seq<char>, reset_at: Option<Seq<char>>) -> StoreView {
    with_supervisor(
        s,
        |r: SupervisorView|
            (SupervisorView {
                quota_reset_at: reset_at,
                updated_at: now,
                ..r
            }),
    )
}

/// Record when the quota comes back.
pub fn set_quota_reset(s: &mut Store, now: &str, reset_at: Option<&str>)
    ensures
        final(s)@ == reset_set(old(s)@, now@, text::arg(reset_at)),
{
    if let Some(r) = s.supervisor.take() {
        s.supervisor = Some(
            Supervisor {
                quota_reset_at: text::owned(reset_at),
                updated_at: now.to_owned(),
                ..r
            },
        );
    }
}

/// The column is missing or empty.
pub open spec fn unset(o: Option<Seq<char>>) -> bool {
    o is None || o->0 == ""@
}

fn is_unset(o: &Option<String>) -> (r: bool)
    ensures
        r == unset(text::opt(*o)),
{
    match o {
        None => true,
        Some(t) => text::same(t.as_str(), ""),
    }
}

/// Seed the persona with the embedded text, only if there is none.
pub fn seed_persona_if_empty(s: &mut Store, now: &str, persona: &str) -> (res: bool)
    ensures
        seeding(old(s)@, now@, persona@, "embedded"@, persona@, res, final(s)@),
{
    seed_persona_from(s, now, persona, "embedded", persona)
}

/// The row with what the daemon asked for, which is bound to no session.
pub open spec fn asked_for(status: Seq<char>, url: Option<Seq<char>>, now: Seq<char>) -> spec_fn(SupervisorView) -> SupervisorView {
    |r: SupervisorView|
        (SupervisorView {
            remote_status: status,
            remote_url: url,
            remote_source: Some("argv"@),
            remote_session_id: None,
            remote_actor: None,
            remote_evidence: None,
            remote_observed_at: Some(now),
            updated_at: now,
            ..r
        })
}

/// The daemon's own bookkeeping: it started or stopped the session, so this is what it asked for.
pub fn set_remote(s: &mut Store, now: &str, status: &str, url: Option<&str>)
    ensures
        final(s)@ == with_supervisor(old(s)@, asked_for(status@, text::arg(url), now@)),
{
    set_remote_observed(s, now, status, url, "argv", None, None, None)
}

/// Some note holds this id.
pub open spec fn note_id_taken(s: StoreView, id: Seq<char>) -> bool {
    table::any(s.notes, |n: NoteView| n.id == id)
}

fn has_note(s: &Store, id: &str) -> (r: bool)
    ensures
        r == note_id_taken(s@, id@),
{
    let ghost hit = |n: NoteView| n.id == id@;
    let found = table::find(&s.notes, |n: &Note| -> (b: bool)
        ensures b == (n@.id == id@)
        { text::same(n.id.as_str(), id) }, Ghost(hit));
    proof {
        table::first_is_a_hit(s@.notes, hit);
    }
    found.is_some()
}

/// What keeping a handoff summary answers and leaves in the store.
pub open spec fn keeping_summary(
    s: StoreView,
    now: Seq<char>,
    note_id: Seq<char>,
    summary: Seq<char>,
    res: Result<i64, StoreError>,
    after: StoreView,
) -> bool {
    &&& s.supervisor is None ==> res == Err::<i64, StoreError>(StoreError::NoSupervisor)
    &&& s.supervisor is Some && note_id_taken(s, note_id) ==> res == Err::<i64, StoreError>(StoreError::IdTaken)
    &&& res is Err ==> after == s
    &&& (s.supervisor matches Some(r) ==> !note_id_taken(s, note_id) ==> {
        let v = table::bumped(r.summary_version);
        &&& res == Ok::<i64, StoreError>(v)
        &&& after == (StoreView {
            supervisor: Some(SupervisorView { summary: Some(summary), summary_version: v, updated_at: now, ..r }),
            notes: s.notes.push(NoteView { id: note_id, kind: "handoff"@, body: summary, version: v, created_at: now }),
            ..s
        })
    })
}

/// Keep the handoff summary, under a new version, and the note of it.
pub fn set_summary(s: &mut Store, now: &str, note_id: &str, summary: &str) -> (res: Result<i64, StoreError>)
    ensures
        keeping_summary(old(s)@, now@, note_id@, summary@, res, final(s)@),
{
    if s.supervisor.is_none() {
        return Err(StoreError::NoSupervisor);
    }
    if has_note(s, note_id) {
        return Err(StoreError::IdTaken);
    }
    match s.supervisor.take() {
        None => Err(StoreError::NoSupervisor),
        Some(r) => {
            let v: i64 = table::bump(r.summary_version);
            s.supervisor = Some(
                Supervisor { summary: Some(summary.to_owned()), summary_version: v, updated_at: now.to_owned(), ..r },
            );
            s.notes.push(
                Note {
                    id: note_id.to_owned(),
                    kind: "handoff".to_owned(),
                    body: summary.to_owned(),
                    version: v,
                    created_at: now.to_owned(),
                },
            );
            assert(s@.notes =~= old(s)@.notes.push(s@.notes.last()));
            Ok(v)
        },
    }
}

/// What adding a note answers and leaves in the store.
pub open spec fn noting(
    s: StoreView,
    now: Seq<char>,
    id: Seq<char>,
    kind: Seq<char>,
    body: Seq<char>,
    res: Result<(), StoreError>,
    after: StoreView,
) -> bool {
    &&& res == (if note_id_taken(s, id) {
        Err::<(), StoreError>(StoreError::IdTaken)
    } else {
        Ok(())
    })
    &&& after == if res is Ok {
        StoreView { notes: s.notes.push(NoteView { id, kind, body, version: 1, created_at: now }), ..s }
    } else {
        s
    }
}

/// An append-only audit record.
pub fn add_note(s: &mut Store, now: &str, id: &str, kind: &str, body: &str) -> (res: Result<(), StoreError>)
    ensures
        noting(old(s)@, now@, id@, kind@, body@, res, final(s)@),
{
    if has_note(s, id) {
        return Err(StoreError::IdTaken);
    }
    let ghost was = s@.notes;
    s.notes.push(
        Note {
            id: id.to_owned(),
            kind: kind.to_owned(),
            body: body.to_owned(),
            version: 1,
            created_at: now.to_owned(),
        },
    );
    assert(s@.notes =~= was.push(s@.notes.last()));
    Ok(())
}

// ---------------------------------------------------------------- requests

/// A source key that is worth keeping: present and not blank.
pub open spec fn usable_key(key: Option<Seq<char>>) -> Option<Seq<char>> {
    if key is Some && !text::is_blank(key->0) {
        key
    } else {
        None
    }
}

/// The requests that came from this source.
pub open spec fn from_source(key: Seq<char>) -> spec_fn(RequestView) -> bool {
    |r: RequestView| r.source_key == Some(key)
}

/// A request with this id is already there.
pub open spec fn with_request_id(id: Seq<char>) -> spec_fn(RequestView) -> bool {
    |r: RequestView| r.id == id
}

/// The request that a source key already stands for.
pub open spec fn known_request(s: StoreView, source_key: Option<Seq<char>>) -> Option<RequestView> {
    match usable_key(source_key) {
        Some(key) => table::first(s.requests, from_source(key)),
        None => None,
    }
}

/// Which request the words belong to, and the store afterwards; `None` where the id is taken.
pub open spec fn upserted(
    s: StoreView,
    id: Seq<char>,
    source: Seq<char>,
    source_key: Option<Seq<char>>,
    words: Seq<char>,
    now: Seq<char>,
) -> (Option<Seq<char>>, StoreView) {
    match known_request(s, source_key) {
        Some(r) => (Some(r.id), s),
        None => if table::any(s.requests, with_request_id(id)) {
            (None, s)
        } else {
            (
                Some(id),
                StoreView {
                    requests: s.requests.push(
                        RequestView {
                            id,
                            source,
                            source_key: usable_key(source_key),
                            text: words,
                            status: "open"@,
                            created_at: now,
                        },
                    ),
                    ..s
                },
            )
        },
    }
}

/// Record the user's words behind an assignment. The same source key again finds the request that
/// is already there: a replayed message must not become a second one.
pub fn upsert_request(
    s: &mut Store,
    now: &str,
    id: &str,
    source: &str,
    source_key: Option<&str>,
    words: &str,
) -> (res: Result<String, StoreError>)
    ensures
        ({
            let (found, after) = upserted(old(s)@, id@, source@, text::arg(source_key), words@, now@);
            &&& final(s)@ == after
            &&& match found {
                Some(i) => res matches Ok(r) && r@ == i,
                None => res == Err::<String, StoreError>(StoreError::IdTaken),
            }
        }),
{
    let key: Option<&str> = match source_key {
        Some(k) => if text::blank(k) {
            None
        } else {
            Some(k)
        },
        None => None,
    };
    if let Some(k) = key {
        let known = table::find(&s.requests, |r: &Request| -> (b: bool)
            ensures b == (r@.source_key == Some(k@))
            { text::is_text(&r.source_key, k) }, Ghost(from_source(k@)));
        if let Some(r) = known {
            return Ok(r.id.clone());
        }
    }
    let taken = table::find(&s.requests, |r: &Request| -> (b: bool)
        ensures b == (with_request_id(id@))(r@)
        { text::same(r.id.as_str(), id) }, Ghost(with_request_id(id@))).is_some();
    proof {
        table::first_is_a_hit(s@.requests, with_request_id(id@));
    }
    if taken {
        return Err(StoreError::IdTaken);
    }
    s.requests.push(
        Request {
            id: id.to_owned(),
            source: source.to_owned(),
            source_key: text::owned(key),
            text: words.to_owned(),
            status: "open".to_owned(),
            created_at: now.to_owned(),
        },
    );
    Ok(id.to_owned())
}

/// One request was made after another.
pub open spec fn newer_request() -> spec_fn(RequestView, RequestView) -> bool {
    |a: RequestView, b: RequestView| text::text_before(b.created_at, a.created_at)
}

/// At most `limit` requests, the latest first.
pub open spec fn latest_requests(rows: Seq<RequestView>, limit: int) -> Seq<RequestView> {
    table::limited(table::ordered(rows, newer_request()), limit)
}

/// The latest requests.
pub fn requests(s: &Store, limit: i64) -> (r: Vec<Request>)
    ensures
        table::views(r@) == latest_requests(s@.requests, limit as int),
{
    let all = table::select(&s.requests, |r: &Request| -> (b: bool)
        ensures b
        { true }, Ghost(|r: RequestView| true));
    proof {
        table::filter_all(s@.requests, |r: RequestView| true);
    }
    let sorted = table::arrange(all, |a: &Request, b: &Request| -> (c: bool)
        ensures c == text::text_before(b@.created_at, a@.created_at)
        { text::precedes(b.created_at.as_str(), a.created_at.as_str()) }, Ghost(newer_request()));
    table::limit(sorted, limit)
}

// ---------------------------------------------------------------- laws

/// A replayed message does not become a second request: the same source key finds the first one,
/// whatever the words are, and writes nothing.
pub proof fn a_replayed_message_is_one_request(
    s: StoreView,
    id: Seq<char>,
    other_id: Seq<char>,
    source: Seq<char>,
    other_source: Seq<char>,
    key: Seq<char>,
    words: Seq<char>,
    other_words: Seq<char>,
    now: Seq<char>,
    later: Seq<char>,
)
    requires
        !text::is_blank(key),
        upserted(s, id, source, Some(key), words, now).0 is Some,
    ensures
        ({
            let (found, after) = upserted(s, id, source, Some(key), words, now);
            upserted(after, other_id, other_source, Some(key), other_words, later) == (found, after)
        }),
{
    let (found, after) = upserted(s, id, source, Some(key), words, now);
    if known_request(s, Some(key)) is None {
        let n = s.requests.len() as int;
        table::first_is_a_hit(s.requests, from_source(key));
        assert forall|j: int| 0 <= j < n implies !(from_source(key))(#[trigger] after.requests[j]) by {
            if (from_source(key))(after.requests[j]) {
                assert((from_source(key))(s.requests[j]));
            }
        }
        assert((from_source(key))(after.requests[n]));
        table::first_at(after.requests, from_source(key), n);
    }
}

/// Two asks without a source key are two requests, also when the words are the same.
pub proof fn two_asks_are_two_requests(
    s: StoreView,
    id: Seq<char>,
    other_id: Seq<char>,
    source: Seq<char>,
    words: Seq<char>,
    now: Seq<char>,
    later: Seq<char>,
)
    requires
        id != other_id,
        !table::any(s.requests, with_request_id(id)),
        !table::any(s.requests, with_request_id(other_id)),
    ensures
        ({
            let (first, once) = upserted(s, id, source, None, words, now);
            let (second, twice) = upserted(once, other_id, source, None, words, later);
            first == Some(id) && second == Some(other_id) && twice.requests.len() == s.requests.len() + 2
        }),
{
    let (first, once) = upserted(s, id, source, None, words, now);
    if table::any(once.requests, with_request_id(other_id)) {
        let i = choose|i: int| 0 <= i < once.requests.len() && (with_request_id(other_id))(#[trigger] once.requests[i]);
        assert(i < s.requests.len());
        assert((with_request_id(other_id))(s.requests[i]));
    }
}

/// A listing of requests begins with the latest and ends at the limit.
pub proof fn requests_are_listed_newest_first(
    rows: Seq<RequestView>,
    limit: int,
    x: RequestView,
    i: int,
    j: int,
)
    ensures
        ({
            let list = latest_requests(rows, limit);
            let asked = true;
            &&& list.contains(x) ==> rows.contains(x) && asked
            &&& limit >= 0 ==> list.len() <= limit
            &&& (limit < 0 || list.len() < limit) && rows.contains(x) && asked ==> list.contains(x)
            &&& 0 <= i < j < list.len() ==> !text::text_before(list[i].created_at, list[j].created_at)
            &&& rows.contains(x) && asked && !list.contains(x) && 0 <= i < list.len() ==> !text::text_before(list[i].created_at, x.created_at)
        }),
{
    table::ranked_by_text(newer_request(), |v: RequestView| v.created_at, false);
    let each = |v: RequestView| true;
    table::filter_all(rows, each);
    table::listing_up_to(rows, each, newer_request(), limit, x, i, j);
}

/// Recording where the manager works changes its bot, its project and its directory, and nothing else.
pub proof fn where_the_manager_works_is_on_record(s: StoreView, now: Seq<char>, bot_id: Seq<char>, project_id: Seq<char>, cwd: Seq<char>)
    ensures
        s.supervisor is None ==> env_set(s, now, bot_id, project_id, cwd) == s,
        s.supervisor matches Some(was) ==> env_set(s, now, bot_id, project_id, cwd) == (StoreView {
            supervisor: Some(
                SupervisorView {
                    bot_id: Some(bot_id),
                    project_id: Some(project_id),
                    cwd: Some(cwd),
                    updated_at: now,
                    ..was
                },
            ),
            ..s
        }),
{
}

/// A state is written with its detail, and nothing else moves.
pub proof fn a_state_is_written_with_its_detail(s: StoreView, now: Seq<char>, status: Seq<char>, detail: Option<Seq<char>>)
    ensures
        s.supervisor is None ==> status_set(s, now, status, detail) == s,
        s.supervisor matches Some(was) ==> status_set(s, now, status, detail) == (StoreView {
            supervisor: Some(
                SupervisorView {
                    status: status,
                    status_detail: detail,
                    updated_at: now,
                    ..was
                },
            ),
            ..s
        }),
{
}

/// A new detail leaves the state as it is.
pub proof fn a_detail_leaves_the_state(s: StoreView, now: Seq<char>, detail: Option<Seq<char>>)
    ensures
        s.supervisor is None ==> detail_set(s, now, detail) == s,
        s.supervisor matches Some(was) ==> detail_set(s, now, detail) == (StoreView {
            supervisor: Some(
                SupervisorView {
                    status_detail: detail,
                    updated_at: now,
                    ..was
                },
            ),
            ..s
        }),
{
}

/// Starting or stopping by hand is written as the intent, and wipes what the watchdog had counted.
pub proof fn a_decision_by_hand_begins_anew(s: StoreView, now: Seq<char>, wanted: bool)
    ensures
        s.supervisor is None ==> wanted_set(s, now, wanted) == s,
        s.supervisor matches Some(was) ==> wanted_set(s, now, wanted) == (StoreView {
            supervisor: Some(
                SupervisorView {
                    desired_running: if wanted { 1 } else { 0 },
                    watchdog_attempts: 0,
                    watchdog_next_at: None,
                    watchdog_gave_up_at: None,
                    watchdog_last_error: None,
                    updated_at: now,
                    ..was
                },
            ),
            ..s
        }),
{
}

/// The watchdog's count is written with when the next try is due; a count of none forgets that it gave
/// up and why, any other keeps both.
pub proof fn a_watchdogs_count_is_on_record(s: StoreView, now: Seq<char>, attempts: i64, next_at: Option<Seq<char>>)
    ensures
        s.supervisor is None ==> watchdog_set(s, now, attempts, next_at) == s,
        s.supervisor matches Some(was) ==> watchdog_set(s, now, attempts, next_at) == (StoreView {
            supervisor: Some(
                SupervisorView {
                    watchdog_attempts: attempts,
                    watchdog_next_at: next_at,
                    watchdog_gave_up_at: if attempts != 0 { was.watchdog_gave_up_at } else { None },
                    watchdog_last_error: if attempts != 0 { was.watchdog_last_error } else { None },
                    updated_at: now,
                    ..was
                },
            ),
            ..s
        }),
{
}

/// A wake is written with its moment.
pub proof fn a_wake_is_on_record(s: StoreView, now: Seq<char>, at: Seq<char>)
    ensures
        s.supervisor is None ==> notified_at(s, now, at) == s,
        s.supervisor matches Some(was) ==> notified_at(s, now, at) == (StoreView {
            supervisor: Some(
                SupervisorView {
                    last_notify_at: Some(at),
                    updated_at: now,
                    ..was
                },
            ),
            ..s
        }),
{
}

/// A persona is written with its hash, its source and the moment, under the next version; the hash of the
/// text it came from is kept where none is given.
pub proof fn a_persona_is_kept_under_a_new_version(s: StoreView, now: Seq<char>, persona: Seq<char>, source: Seq<char>, seed_hash: Option<Seq<char>>)
    ensures
        s.supervisor is None ==> persona_set(s, now, persona, source, seed_hash) == s,
        s.supervisor matches Some(was) ==> persona_set(s, now, persona, source, seed_hash) == (StoreView {
            supervisor: Some(
                SupervisorView {
                    persona_text: Some(persona),
                    persona_hash: Some(persona::hash_text(persona)),
                    persona_source: Some(source),
                    persona_updated_at: Some(now),
                    persona_seed_hash: if seed_hash is None { was.persona_seed_hash } else { seed_hash },
                    persona_version: if was.persona_version == i64::MAX { i64::MAX } else { (was.persona_version + 1) as i64 },
                    updated_at: now,
                    ..was
                },
            ),
            ..s
        }),
{
}

/// An observation is written with its source, its session, its actor, its evidence and its moment.
pub proof fn an_observation_is_written_whole(s: StoreView, now: Seq<char>, status: Seq<char>, url: Option<Seq<char>>, source: Seq<char>, session_id: Option<Seq<char>>, actor: Option<Seq<char>>, evidence: Option<Seq<char>>)
    ensures
        s.supervisor is None ==> remote_set(s, now, status, url, source, session_id, actor, evidence) == s,
        s.supervisor matches Some(was) ==> remote_set(s, now, status, url, source, session_id, actor, evidence) == (StoreView {
            supervisor: Some(
                SupervisorView {
                    remote_status: status,
                    remote_url: url,
                    remote_source: Some(source),
                    remote_session_id: session_id,
                    remote_actor: actor,
                    remote_evidence: evidence,
                    remote_observed_at: Some(now),
                    updated_at: now,
                    ..was
                },
            ),
            ..s
        }),
{
}

/// A switch of the model moves the generation and the count of switches on by one, with the cooldown
/// that it begins.
pub proof fn a_switch_is_counted_and_retires_the_old_one(s: StoreView, now: Seq<char>, model: Seq<char>, cooldown_until: Option<Seq<char>>)
    ensures
        s.supervisor is None ==> model_set(s, now, model, cooldown_until) == s,
        s.supervisor matches Some(was) ==> model_set(s, now, model, cooldown_until) == (StoreView {
            supervisor: Some(
                SupervisorView {
                    active_model: model,
                    generation: if was.generation == i64::MAX { i64::MAX } else { (was.generation + 1) as i64 },
                    fallback_tries: if was.fallback_tries == i64::MAX { i64::MAX } else { (was.fallback_tries + 1) as i64 },
                    cooldown_until: cooldown_until,
                    updated_at: now,
                    ..was
                },
            ),
            ..s
        }),
{
}

/// A new generation is the next one, and nothing else moves.
pub proof fn a_new_generation_moves_nothing_else(s: StoreView, now: Seq<char>)
    ensures
        s.supervisor is None ==> generation_bumped(s, now) == s,
        s.supervisor matches Some(was) ==> generation_bumped(s, now) == (StoreView {
            supervisor: Some(
                SupervisorView {
                    generation: if was.generation == i64::MAX { i64::MAX } else { (was.generation + 1) as i64 },
                    updated_at: now,
                    ..was
                },
            ),
            ..s
        }),
{
}

/// Clearing the budget forgets the switches that were counted and their cooldown.
pub proof fn a_cleared_budget_counts_from_none(s: StoreView, now: Seq<char>)
    ensures
        s.supervisor is None ==> budget_cleared(s, now) == s,
        s.supervisor matches Some(was) ==> budget_cleared(s, now) == (StoreView {
            supervisor: Some(
                SupervisorView {
                    fallback_tries: 0,
                    cooldown_until: None,
                    updated_at: now,
                    ..was
                },
            ),
            ..s
        }),
{
}

/// When quota comes back is written as it is given.
pub proof fn a_reset_is_on_record(s: StoreView, now: Seq<char>, reset_at: Option<Seq<char>>)
    ensures
        s.supervisor is None ==> reset_set(s, now, reset_at) == s,
        s.supervisor matches Some(was) ==> reset_set(s, now, reset_at) == (StoreView {
            supervisor: Some(
                SupervisorView {
                    quota_reset_at: reset_at,
                    updated_at: now,
                    ..was
                },
            ),
            ..s
        }),
{
}

/// The supervisor row is read as it is; the first read makes it, with nothing set up, nothing counted
/// and nobody wanted.
pub proof fn the_supervisor_row_is_made_once(s: StoreView, now: Seq<char>, r: SupervisorView, after: StoreView)
    requires
        reading(s, now, r, after),
    ensures
        after == (StoreView { supervisor: Some(r), ..s }),
        s.supervisor is Some ==> s.supervisor == Some(r),
        s.supervisor is None ==> {
            &&& r.id == "AGM"@
            &&& r.bot_id is None && r.project_id is None && r.cwd is None
            &&& r.identity == "cc0"@ && r.effort == "low"@ && r.active_model == "fable"@
            &&& r.generation == 0 && r.status == ""@ && r.status_detail is None
            &&& r.fallback_tries == 0 && r.cooldown_until is None && r.quota_reset_at is None
            &&& r.remote_status == "unknown"@ && r.remote_url is None && r.remote_source is None
            &&& r.remote_observed_at is None && r.remote_session_id is None && r.remote_actor is None
            &&& r.remote_evidence is None
            &&& r.summary is None && r.summary_version == 0
            &&& r.desired_running == 0
            &&& r.watchdog_attempts == 0 && r.watchdog_next_at is None && r.watchdog_gave_up_at is None
            &&& r.watchdog_last_error is None
            &&& r.last_notify_at is None
            &&& r.persona_text is None && r.persona_version == 0 && r.persona_hash is None && r.persona_source is None
            &&& r.persona_updated_at is None && r.persona_seed_hash is None
            &&& r.created_at == now && r.updated_at == now
        },
{
}

/// The watchdog gives up once: the first call writes the moment and the reason and is told so, a later
/// one changes nothing.
pub proof fn the_watchdog_gives_up_once(s: StoreView, now: Seq<char>, why: Seq<char>, first: bool, after: StoreView)
    requires
        giving_up(s, now, why, first, after),
    ensures
        first <==> s.supervisor is Some && s.supervisor->0.watchdog_gave_up_at is None,
        !first ==> after == s,
        first ==> after == (StoreView {
            supervisor: Some(
                SupervisorView {
                    watchdog_gave_up_at: Some(now),
                    watchdog_last_error: Some(why),
                    updated_at: now,
                    ..s.supervisor->0
                },
            ),
            ..s
        }),
{
}

/// A persona is seeded only where there is none, or an empty one; a customised one stays. The hash of the
/// embedded text is kept beside the hash of the text that was written.
pub proof fn a_persona_is_seeded_only_where_there_is_none(
    s: StoreView,
    now: Seq<char>,
    persona: Seq<char>,
    source: Seq<char>,
    embedded: Seq<char>,
    seeded: bool,
    after: StoreView,
)
    requires
        seeding(s, now, persona, source, embedded, seeded, after),
    ensures
        seeded <==> s.supervisor is Some && (s.supervisor->0.persona_text is None || s.supervisor->0.persona_text == Some(
            ""@,
        )),
        !seeded ==> after == s,
        seeded ==> {
            let was = s.supervisor->0;
            after == (StoreView {
                supervisor: Some(
                    SupervisorView {
                        persona_text: Some(persona),
                        persona_hash: Some(persona::hash_text(persona)),
                        persona_source: Some(source),
                        persona_updated_at: Some(now),
                        persona_seed_hash: Some(persona::hash_text(embedded)),
                        persona_version: if was.persona_version == i64::MAX {
                            i64::MAX
                        } else {
                            (was.persona_version + 1) as i64
                        },
                        updated_at: now,
                        ..was
                    },
                ),
                ..s
            })
        },
{
}

/// What the daemon asked for itself is bound to no session, has no actor and no evidence.
pub proof fn what_was_asked_for_is_bound_to_no_session(s: StoreView, status: Seq<char>, url: Option<Seq<char>>, now: Seq<char>)
    ensures
        with_supervisor(s, asked_for(status, url, now)) == remote_set(s, now, status, url, "argv"@, None, None, None),
{
}

/// A handoff summary is kept under the next version, together with a note that says the same; it fails
/// without a supervisor and on a note id that is taken, and then nothing is written.
pub proof fn a_summary_is_kept_with_its_note(
    s: StoreView,
    now: Seq<char>,
    note_id: Seq<char>,
    summary: Seq<char>,
    res: Result<i64, StoreError>,
    after: StoreView,
)
    requires
        keeping_summary(s, now, note_id, summary, res, after),
    ensures
        res is Ok <==> s.supervisor is Some && forall|i: int| 0 <= i < s.notes.len() ==> (#[trigger] s.notes[i]).id != note_id,
        res == Err::<i64, StoreError>(StoreError::NoSupervisor) <==> s.supervisor is None,
        res is Err ==> after == s,
        res is Ok ==> {
            let was = s.supervisor->0;
            let v = after.supervisor->0.summary_version;
            &&& res->Ok_0 == v
            &&& was.summary_version < i64::MAX ==> v == was.summary_version + 1
            &&& was.summary_version == i64::MAX ==> v == i64::MAX
            &&& after.supervisor == Some(
                SupervisorView { summary: Some(summary), summary_version: v, updated_at: now, ..was },
            )
            &&& after.notes.len() == s.notes.len() + 1
            &&& after.notes.drop_last() == s.notes
            &&& after.notes.last().id == note_id
            &&& after.notes.last().kind == "handoff"@
            &&& after.notes.last().body == summary
            &&& after.notes.last().version == v
            &&& after.notes.last().created_at == now
            &&& after == (StoreView { supervisor: after.supervisor, notes: after.notes, ..s })
        },
{
    let hit = |n: NoteView| n.id == note_id;
    if note_id_taken(s, note_id) {
        let i = choose|i: int| 0 <= i < s.notes.len() && hit(#[trigger] s.notes[i]);
        assert(s.notes[i].id == note_id);
    } else {
        assert forall|i: int| 0 <= i < s.notes.len() implies (#[trigger] s.notes[i]).id != note_id by {
            assert(!hit(s.notes[i]));
        }
        if s.supervisor is Some {
            assert(after.notes.drop_last() =~= s.notes);
        }
    }
}

/// A note is added behind the others as it was given, in its first version; an id that is taken adds
/// nothing.
pub proof fn a_note_is_added_as_it_was_given(
    s: StoreView,
    now: Seq<char>,
    id: Seq<char>,
    kind: Seq<char>,
    body: Seq<char>,
    res: Result<(), StoreError>,
    after: StoreView,
)
    requires
        noting(s, now, id, kind, body, res, after),
    ensures
        res is Ok <==> forall|i: int| 0 <= i < s.notes.len() ==> (#[trigger] s.notes[i]).id != id,
        res is Err ==> res->Err_0 == StoreError::IdTaken && after == s,
        res is Ok ==> {
            let n = after.notes.last();
            &&& after == (StoreView { notes: s.notes.push(n), ..s })
            &&& n.id == id && n.kind == kind && n.body == body && n.version == 1 && n.created_at == now
        },
{
    let hit = |n: NoteView| n.id == id;
    if note_id_taken(s, id) {
        let i = choose|i: int| 0 <= i < s.notes.len() && hit(#[trigger] s.notes[i]);
        assert(s.notes[i].id == id);
    } else {
        assert forall|i: int| 0 <= i < s.notes.len() implies (#[trigger] s.notes[i]).id != id by {
            assert(!hit(s.notes[i]));
        }
    }
}

/// A request is written down with its words, open, under its own id, and keeps the key of its source
/// unless that is blank. A key that is known finds the request that has it, and nothing is written.
pub proof fn a_request_is_written_down_as_it_was_made(
    s: StoreView,
    id: Seq<char>,
    source: Seq<char>,
    source_key: Option<Seq<char>>,
    words: Seq<char>,
    now: Seq<char>,
    k: int,
)
    ensures
        ({
            let (found, after) = upserted(s, id, source, source_key, words, now);
            let named = source_key is Some && !text::is_blank(source_key->0);
            let known = named && exists|i: int| 0 <= i < s.requests.len() && (#[trigger] s.requests[i]).source_key == source_key;
            let taken = exists|i: int| 0 <= i < s.requests.len() && (#[trigger] s.requests[i]).id == id;
            &&& known && 0 <= k < s.requests.len() && s.requests[k].source_key == source_key && (forall|i: int|
                0 <= i < k ==> (#[trigger] s.requests[i]).source_key != source_key) ==> found == Some(s.requests[k].id)
            &&& known ==> after == s && found is Some
            &&& !known && taken ==> after == s && found is None
            &&& !known && !taken ==> {
                let r = after.requests.last();
                &&& found == Some(id)
                &&& after == (StoreView { requests: s.requests.push(r), ..s })
                &&& r.id == id && r.source == source && r.text == words && r.status == "open"@ && r.created_at == now
                &&& named ==> r.source_key == source_key
                &&& !named ==> r.source_key is None
            }
        }),
{
    if source_key is Some && !text::is_blank(source_key->0) {
        let hit = from_source(source_key->0);
        table::first_is_a_hit(s.requests, hit);
        if table::any(s.requests, hit) {
            let i = choose|i: int| 0 <= i < s.requests.len() && hit(#[trigger] s.requests[i]);
            assert(s.requests[i].source_key == source_key);
            if 0 <= k < s.requests.len() && s.requests[k].source_key == source_key && (forall|i: int|
                0 <= i < k ==> (#[trigger] s.requests[i]).source_key != source_key) {
                table::first_at(s.requests, hit, k);
            }
        } else {
            assert forall|i: int| 0 <= i < s.requests.len() implies (#[trigger] s.requests[i]).source_key != source_key by {
                assert(!hit(s.requests[i]));
            }
        }
    }
    let same = with_request_id(id);
    if table::any(s.requests, same) {
        let i = choose|i: int| 0 <= i < s.requests.len() && same(#[trigger] s.requests[i]);
        assert(s.requests[i].id == id);
    } else {
        assert forall|i: int| 0 <= i < s.requests.len() implies (#[trigger] s.requests[i]).id != id by {
            assert(!same(s.requests[i]));
        }
    }
}

/// Setting a persona is answered with its version, one further than the last, and a switch of the model or a
/// new generation with the generation, one further than the last; without a supervisor none of them is done.
pub proof fn each_change_is_answered_with_its_number(
    s: StoreView,
    now: Seq<char>,
    words: Seq<char>,
    source: Seq<char>,
    seed_hash: Option<Seq<char>>,
    until: Option<Seq<char>>,
)
    ensures
        s.supervisor is None ==> version_told(persona_set(s, now, words, source, seed_hash)) == Err::<i64, StoreError>(
            StoreError::NoSupervisor,
        ) && generation_told(model_set(s, now, words, until)) == Err::<i64, StoreError>(StoreError::NoSupervisor)
            && generation_told(generation_bumped(s, now)) == Err::<i64, StoreError>(StoreError::NoSupervisor),
        s.supervisor is Some && s.supervisor->0.persona_version < i64::MAX ==> version_told(
            persona_set(s, now, words, source, seed_hash),
        ) == Ok::<i64, StoreError>((s.supervisor->0.persona_version + 1) as i64),
        s.supervisor is Some && s.supervisor->0.generation < i64::MAX ==> generation_told(model_set(s, now, words, until))
            == Ok::<i64, StoreError>((s.supervisor->0.generation + 1) as i64) && generation_told(generation_bumped(s, now))
            == Ok::<i64, StoreError>((s.supervisor->0.generation + 1) as i64),
{
}

} // verus!
