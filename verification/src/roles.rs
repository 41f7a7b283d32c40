//! The two roles of the manager: patrol, which looks for faults and talks to the user, and the
//! responder, which answers the bots.
//!
//! Who gets an event is decided by its kind, not by a model. Until a responder is set up, patrol gets
//! everything; from then on the responder's events are only the responder's.
use crate::json;
use crate::maintenance::{BotEntry, BotEntryView};
use crate::rows::{RoleRow, RoleRowView};
use crate::store;
use crate::store::{Store, StoreView};
use crate::supervisor;
use crate::table;
use crate::table::Row;
use crate::text;
use vstd::prelude::*;

verus! {

#[derive(Debug, Clone, Copy, PartialEq, Eq, Hash, Structural)]
pub enum Role {
    Patrol,
    Responder,
}

impl Role {
    /// The name a role is stored under.
    pub open spec fn name(self) -> Seq<char> {
        match self {
            Role::Patrol => "patrol"@,
            Role::Responder => "responder"@,
        }
    }

    /// The role that a text names.
    pub open spec fn named(text: Seq<char>) -> Option<Role> {
        let t = text::trimmed(text);
        if t == "patrol"@ {
            Some(Role::Patrol)
        } else if t == "responder"@ {
            Some(Role::Responder)
        } else {
            None
        }
    }

    pub fn as_str(self) -> (r: &'static str)
        ensures
            r@ == self.name(),
    {
        match self {
            Role::Patrol => "patrol",
            Role::Responder => "responder",
        }
    }

    pub fn parse(s: &str) -> (r: Option<Role>)
        ensures
            r == Role::named(s@),
    {
        let t = text::trim(s);
        if text::same(t, "patrol") {
            Some(Role::Patrol)
        } else if text::same(t, "responder") {
            Some(Role::Responder)
        } else {
            None
        }
    }
}

// ---------------------------------------------------------------- routing table

/// Who an event is for, and whether it wakes anybody.
#[derive(Debug, Clone, Copy, PartialEq, Eq, Structural)]
pub struct Route {
    pub role: Role,
    pub wake: bool,
}

/// The fields of a payload that routing looks at.
#[derive(Debug)]
pub struct RouteFacts {
    pub needs_review: Option<bool>,
    pub to_role: Option<String>,
    pub wake: Option<bool>,
    pub incident_kind: Option<String>,
    pub manager_status: Option<String>,
    pub responder_status: Option<String>,
}

/// What a `RouteFacts` holds.
#[verifier::ext_equal]
pub struct RouteFactsView {
    pub needs_review: Option<bool>,
    pub to_role: Option<Seq<char>>,
    pub wake: Option<bool>,
    pub incident_kind: Option<Seq<char>>,
    pub manager_status: Option<Seq<char>>,
    pub responder_status: Option<Seq<char>>,
}

impl View for RouteFacts {
    type V = RouteFactsView;

    open spec fn view(&self) -> RouteFactsView {
        RouteFactsView {
            needs_review: self.needs_review,
            to_role: text::opt(self.to_role),
            wake: self.wake,
            incident_kind: text::opt(self.incident_kind),
            manager_status: text::opt(self.manager_status),
            responder_status: text::opt(self.responder_status),
        }
    }
}

/// What a payload says to routing.
pub open spec fn facts_of(payload: Seq<char>) -> RouteFactsView {
    RouteFactsView {
        needs_review: json::json_bool_at(payload, "/needs_review"@),
        to_role: json::json_str_at(payload, "/to_role"@),
        wake: json::json_bool_at(payload, "/wake"@),
        incident_kind: json::json_str_at(payload, "/incident/kind"@),
        manager_status: json::json_str_at(payload, "/manager_health/status"@),
        responder_status: json::json_str_at(payload, "/responder_health/status"@),
    }
}

/// Who accepts an assignment: the role on record, or the responder.
pub open spec fn decider(review_role: Option<Seq<char>>) -> Role {
    match review_role {
        Some(r) => match Role::named(r) {
            Some(role) => role,
            None => Role::Responder,
        },
        None => Role::Responder,
    }
}

/// Events that only record what the controller handles by itself.
pub open spec fn only_records(kind: Seq<char>) -> bool {
    kind == "assignment_noticed"@ || kind == "assignment_queued"@ || kind == "assignment_quota_blocked"@ || kind
        == "assignment_quota_resumed"@
}

/// Events of the bots' business, and of the manager being down.
pub open spec fn for_the_responder(kind: Seq<char>) -> bool {
    kind == "approval_requested"@ || kind == "mission_created"@ || kind == "mission_question"@ || kind
        == "mission_answered"@ || kind == "mission_resumed"@ || kind == "mission_identity_switch"@ || kind
        == "mission_paused"@ || kind == "mission_cancelled"@ || kind == "watchdog_gave_up"@
}

/// Faults of the system.
pub open spec fn for_patrol(kind: Seq<char>) -> bool {
    kind == "incident_opened"@ || kind == "responder_watchdog_gave_up"@ || kind == "responder_bot_missing"@ || kind
        == "bot_restart_failed"@ || kind == "supervisor_restart_retry"@ || kind == "agm_cli_stale"@ || kind
        == "pane_unowned"@ || kind == "pane_orphaned"@ || kind == "ops_alert"@
}

/// The routing table: the branch for a kind of event, where it has one.
pub open spec fn routing(kind: Seq<char>, f: RouteFactsView, review_role: Option<Seq<char>>) -> Option<Route> {
    if kind == "bot_request"@ {
        Some(
            Route {
                role: match f.to_role {
                    Some(r) => match Role::named(r) {
                        Some(role) => role,
                        None => Role::Responder,
                    },
                    None => Role::Responder,
                },
                wake: f.wake != Some(false),
            },
        )
    } else if kind == "assignment_completed"@ || kind == "assignment_failed"@ {
        Some(Route { role: decider(review_role), wake: f.needs_review != Some(false) })
    } else if kind == "assignment_undeliverable"@ {
        Some(Route { role: decider(review_role), wake: true })
    } else if only_records(kind) {
        Some(Route { role: decider(review_role), wake: false })
    } else if for_the_responder(kind) {
        Some(Route { role: Role::Responder, wake: true })
    } else if (kind == "incident_opened"@ || kind == "incident_resolved"@) && f.incident_kind == Some("notify_exhausted"@) {
        Some(Route { role: Role::Responder, wake: kind == "incident_opened"@ })
    } else if for_patrol(kind) {
        Some(Route { role: Role::Patrol, wake: true })
    } else if kind == "incident_resolved"@ {
        Some(Route { role: Role::Patrol, wake: false })
    } else if kind == "health_changed"@ {
        Some(
            Route {
                role: Role::Patrol,
                wake: f.manager_status != Some("healthy"@) || (f.responder_status is Some && f.responder_status
                    != Some("healthy"@)),
            },
        )
    } else {
        None
    }
}

/// Where an event goes: by the table, and a kind that is not in it to patrol, which is woken.
pub open spec fn routed(kind: Seq<char>, f: RouteFactsView, review_role: Option<Seq<char>>) -> Route {
    match routing(kind, f, review_role) {
        Some(r) => r,
        None => Route { role: Role::Patrol, wake: true },
    }
}

fn role_or_responder(s: Option<&str>) -> (r: Role)
    ensures
        r == decider(text::arg(s)),
{
    match s {
        Some(t) => match Role::parse(t) {
            Some(role) => role,
            None => Role::Responder,
        },
        None => Role::Responder,
    }
}

fn is_only_record(kind: &str) -> (r: bool)
    ensures
        r == only_records(kind@),
{
    text::same(kind, "assignment_noticed") || text::same(kind, "assignment_queued") || text::same(
        kind,
        "assignment_quota_blocked",
    ) || text::same(kind, "assignment_quota_resumed")
}

fn is_for_the_responder(kind: &str) -> (r: bool)
    ensures
        r == for_the_responder(kind@),
{
    text::same(kind, "approval_requested") || text::same(kind, "mission_created") || text::same(kind, "mission_question")
        || text::same(kind, "mission_answered") || text::same(kind, "mission_resumed") || text::same(
        kind,
        "mission_identity_switch",
    ) || text::same(kind, "mission_paused") || text::same(kind, "mission_cancelled") || text::same(kind, "watchdog_gave_up")
}

fn is_for_patrol(kind: &str) -> (r: bool)
    ensures
        r == for_patrol(kind@),
{
    text::same(kind, "incident_opened") || text::same(kind, "responder_watchdog_gave_up") || text::same(
        kind,
        "responder_bot_missing",
    ) || text::same(kind, "bot_restart_failed") || text::same(kind, "supervisor_restart_retry") || text::same(
        kind,
        "agm_cli_stale",
    ) || text::same(kind, "pane_unowned") || text::same(kind, "pane_orphaned") || text::same(kind, "ops_alert")
}

/// The branch of the routing table for a kind of event; `None` where it has none of its own.
pub fn known_route_by(kind: &str, f: &RouteFacts, review_role: Option<&str>) -> (r: Option<Route>)
    ensures
        r == routing(kind@, f@, text::arg(review_role)),
{
    if text::same(kind, "bot_request") {
        return Some(
            Route {
                role: role_or_responder(text::borrowed(&f.to_role)),
                wake: match f.wake {
                    Some(w) => w,
                    None => true,
                },
            },
        );
    }
    let by = role_or_responder(review_role);
    if text::same(kind, "assignment_completed") || text::same(kind, "assignment_failed") {
        let wake = match f.needs_review {
            Some(n) => n,
            None => true,
        };
        return Some(Route { role: by, wake });
    }
    if text::same(kind, "assignment_undeliverable") {
        return Some(Route { role: by, wake: true });
    }
    if is_only_record(kind) {
        return Some(Route { role: by, wake: false });
    }
    if is_for_the_responder(kind) {
        return Some(Route { role: Role::Responder, wake: true });
    }
    let opened = text::same(kind, "incident_opened");
    let resolved = text::same(kind, "incident_resolved");
    if (opened || resolved) && text::is_text(&f.incident_kind, "notify_exhausted") {
        return Some(Route { role: Role::Responder, wake: opened });
    }
    if is_for_patrol(kind) {
        return Some(Route { role: Role::Patrol, wake: true });
    }
    if resolved {
        return Some(Route { role: Role::Patrol, wake: false });
    }
    if text::same(kind, "health_changed") {
        let wake = !text::is_text(&f.manager_status, "healthy") || (f.responder_status.is_some() && !text::is_text(
            &f.responder_status,
            "healthy",
        ));
        return Some(Route { role: Role::Patrol, wake });
    }
    None
}

fn read_facts(payload: &str) -> (r: RouteFacts)
    ensures
        r@ == facts_of(payload@),
{
    RouteFacts {
        needs_review: json::bool_at(payload, "/needs_review"),
        to_role: json::str_at(payload, "/to_role"),
        wake: json::bool_at(payload, "/wake"),
        incident_kind: json::str_at(payload, "/incident/kind"),
        manager_status: json::str_at(payload, "/manager_health/status"),
        responder_status: json::str_at(payload, "/responder_health/status"),
    }
}

/// The branch of the routing table for an event, by its kind, its payload and the role on record that decides.
pub fn known_route(kind: &str, payload: &str, review_role: Option<&str>) -> (r: Option<Route>)
    ensures
        r == routing(kind@, facts_of(payload@), text::arg(review_role)),
{
    known_route_by(kind, &read_facts(payload), review_role)
}

/// Where an event goes. A kind that is not in the table goes to patrol and wakes it: a new event is
/// rather seen once too often than never.
pub fn route(kind: &str, payload: &str, review_role: Option<&str>) -> (r: Route)
    ensures
        r == routed(kind@, facts_of(payload@), text::arg(review_role)),
{
    match known_route(kind, payload, review_role) {
        Some(r) => r,
        None => Route { role: Role::Patrol, wake: true },
    }
}

// ---------------------------------------------------------------- role rows

/// The row of a role that nothing is known of yet.
pub open spec fn fresh_role(role: Role, now: Seq<char>) -> RoleRowView {
    RoleRowView {
        role: role.name(),
        bot_id: None,
        project_id: None,
        cwd: None,
        identity: "cc0"@,
        model: "opus"@,
        effort: "high"@,
        desired_running: 0,
        status: ""@,
        status_detail: None,
        quota_reset_at: None,
        watchdog_attempts: 0,
        watchdog_next_at: None,
        watchdog_gave_up_at: None,
        watchdog_last_error: None,
        last_notify_at: None,
        notify_next_at: None,
        last_wake_at: None,
        last_wake_reason: None,
        wakes: 0,
        events_delivered: 0,
        duplicates: 0,
        merged: 0,
        persona_text: None,
        persona_version: 0,
        persona_hash: None,
        persona_source: None,
        persona_updated_at: None,
        persona_seed_hash: None,
        waiting_since: None,
        created_at: now,
        updated_at: now,
    }
}

/// The row of a role.
pub open spec fn of_role(role: Role) -> spec_fn(RoleRowView) -> bool {
    |r: RoleRowView| r.role == role.name()
}

/// The role rows with one for this role.
pub open spec fn with_role(rows: Seq<RoleRowView>, role: Role, now: Seq<char>) -> Seq<RoleRowView> {
    if table::any(rows, of_role(role)) {
        rows
    } else {
        rows.push(fresh_role(role, now))
    }
}

/// The row of a role as it is read: a fresh one where there is none.
pub open spec fn role_row(rows: Seq<RoleRowView>, role: Role, now: Seq<char>) -> RoleRowView {
    table::first(with_role(rows, role, now), of_role(role))->0
}

/// There is a row for a role once one was asked for.
pub proof fn a_role_has_a_row(rows: Seq<RoleRowView>, role: Role, now: Seq<char>)
    ensures
        table::any(with_role(rows, role, now), of_role(role)),
        table::first(with_role(rows, role, now), of_role(role)) is Some,
        role_row(rows, role, now).role == role.name(),
        !table::any(rows, of_role(role)) ==> role_row(rows, role, now) == fresh_role(role, now),
{
    let more = with_role(rows, role, now);
    let hit = of_role(role);
    if !table::any(rows, hit) {
        assert(hit(more[rows.len() as int]));
        assert forall|j: int| 0 <= j < rows.len() implies !hit(#[trigger] more[j]) by {
            assert(!hit(rows[j]));
        }
        table::first_at(more, hit, rows.len() as int);
    }
    table::first_is_a_hit(more, hit);
}

fn is_role(r: &RoleRow, role: Role) -> (b: bool)
    ensures
        b == (of_role(role))(r@),
{
    text::same(r.role.as_str(), role.as_str())
}

fn row_of(s: &Store, role: Role) -> (r: Option<RoleRow>)
    ensures
        table::opt_view(r) == table::first(s@.roles, of_role(role)),
{
    match table::find(&s.roles, |r: &RoleRow| -> (b: bool)
        ensures b == (of_role(role))(r@)
        { is_role(r, role) }, Ghost(of_role(role))) {
        Some(r) => Some(r.copied()),
        None => None,
    }
}

/// Read the row of a role, creating it on the first call.
pub fn get(s: &mut Store, now: &str, role: Role) -> (r: RoleRow)
    ensures
        final(s)@ == (StoreView { roles: with_role(old(s)@.roles, role, now@), ..old(s)@ }),
        r@ == role_row(old(s)@.roles, role, now@),
{
    proof {
        a_role_has_a_row(s@.roles, role, now@);
        table::first_is_a_hit(s@.roles, of_role(role));
    }
    match row_of(s, role) {
        Some(r) => r,
        None => {
            let row = RoleRow {
                role: role.as_str().to_owned(),
                bot_id: None,
                project_id: None,
                cwd: None,
                identity: "cc0".to_owned(),
                model: "opus".to_owned(),
                effort: "high".to_owned(),
                desired_running: 0,
                status: "".to_owned(),
                status_detail: None,
                quota_reset_at: None,
                watchdog_attempts: 0,
                watchdog_next_at: None,
                watchdog_gave_up_at: None,
                watchdog_last_error: None,
                last_notify_at: None,
                notify_next_at: None,
                last_wake_at: None,
                last_wake_reason: None,
                wakes: 0,
                events_delivered: 0,
                duplicates: 0,
                merged: 0,
                persona_text: None,
                persona_version: 0,
                persona_hash: None,
                persona_source: None,
                persona_updated_at: None,
                persona_seed_hash: None,
                waiting_since: None,
                created_at: now.to_owned(),
                updated_at: now.to_owned(),
            };
            let out = row.copied();
            s.roles.push(row);
            out
        },
    }
}

/// A counter moved on by a number of events; it stops at the largest integer.
pub open spec fn added(n: i64, k: nat) -> i64 {
    if n + k <= i64::MAX {
        (n + k) as i64
    } else {
        i64::MAX
    }
}

pub(crate) fn plus(n: i64, k: usize) -> (r: i64)
    ensures
        r == added(n, k as nat),
{
    let sum: i128 = n as i128 + k as i128;
    if sum <= i64::MAX as i128 {
        sum as i64
    } else {
        i64::MAX
    }
}

/// A role with its bot, project and directory.
pub open spec fn placed_in(bot_id: Seq<char>, project_id: Seq<char>, cwd: Seq<char>, now: Seq<char>) -> spec_fn(RoleRowView) -> RoleRowView {
    |a: RoleRowView|
        (RoleRowView {
            bot_id: Some(bot_id),
            project_id: Some(project_id),
            cwd: Some(cwd),
            updated_at: now,
            ..a
        })
}

/// The store with where a role works.
pub open spec fn env_set(s: StoreView, now: Seq<char>, role: Role, bot_id: Seq<char>, project_id: Seq<char>, cwd: Seq<char>) -> StoreView {
    StoreView { roles: table::changed(with_role(s.roles, role, now), of_role(role), placed_in(bot_id, project_id, cwd, now)), ..s }
}

/// Record the bot, the project and the directory of a role.
pub fn set_env(s: &mut Store, now: &str, role: Role, bot_id: &str, project_id: &str, cwd: &str)
    ensures
        final(s)@ == env_set(old(s)@, now@, role, bot_id@, project_id@, cwd@),
{
    let _ = get(s, now, role);
    table::change(
        &mut s.roles,
        |a: &RoleRow| -> (b: bool)
            ensures b == (of_role(role))(a@)
            { is_role(a, role) },
        |a: &RoleRow| -> (x: RoleRow)
            ensures x@ == (placed_in(bot_id@, project_id@, cwd@, now@))(a@)
            {
                RoleRow {
                    bot_id: Some(bot_id.to_owned()),
                    project_id: Some(project_id.to_owned()),
                    cwd: Some(cwd.to_owned()),
                    updated_at: now.to_owned(),
                    ..a.copied()
                }
            },
        Ghost(of_role(role)),
        Ghost(placed_in(bot_id@, project_id@, cwd@, now@)),
    );
}

/// A role with what it runs on.
pub open spec fn running_on(identity: Seq<char>, model: Seq<char>, effort: Seq<char>, now: Seq<char>) -> spec_fn(RoleRowView) -> RoleRowView {
    |a: RoleRowView|
        (RoleRowView {
            identity: identity,
            model: model,
            effort: effort,
            updated_at: now,
            ..a
        })
}

/// The store with what a role runs on.
pub open spec fn runtime_set(s: StoreView, now: Seq<char>, role: Role, identity: Seq<char>, model: Seq<char>, effort: Seq<char>) -> StoreView {
    StoreView { roles: table::changed(with_role(s.roles, role, now), of_role(role), running_on(identity, model, effort, now)), ..s }
}

/// Record what a role runs on.
pub fn set_runtime(s: &mut Store, now: &str, role: Role, identity: &str, model: &str, effort: &str)
    ensures
        final(s)@ == runtime_set(old(s)@, now@, role, identity@, model@, effort@),
{
    let _ = get(s, now, role);
    table::change(
        &mut s.roles,
        |a: &RoleRow| -> (b: bool)
            ensures b == (of_role(role))(a@)
            { is_role(a, role) },
        |a: &RoleRow| -> (x: RoleRow)
            ensures x@ == (running_on(identity@, model@, effort@, now@))(a@)
            {
                RoleRow {
                    identity: identity.to_owned(),
                    model: model.to_owned(),
                    effort: effort.to_owned(),
                    updated_at: now.to_owned(),
                    ..a.copied()
                }
            },
        Ghost(of_role(role)),
        Ghost(running_on(identity@, model@, effort@, now@)),
    );
}

/// A role that somebody started or stopped by hand.
pub open spec fn wanted_or_not(wanted: bool, now: Seq<char>) -> spec_fn(RoleRowView) -> RoleRowView {
    |a: RoleRowView|
        (RoleRowView {
            desired_running: if wanted { 1 } else { 0 },
            watchdog_attempts: 0,
            watchdog_next_at: None,
            watchdog_gave_up_at: None,
            watchdog_last_error: None,
            updated_at: now,
            ..a
        })
}

/// The store after a role was started or stopped by hand.
pub open spec fn wanted_set(s: StoreView, now: Seq<char>, role: Role, wanted: bool) -> StoreView {
    StoreView { roles: table::changed(with_role(s.roles, role, now), of_role(role), wanted_or_not(wanted, now)), ..s }
}

/// A start or stop by hand begins a new round: the watchdog's count and its record of giving up go.
pub fn set_desired_running(s: &mut Store, now: &str, role: Role, wanted: bool)
    ensures
        final(s)@ == wanted_set(old(s)@, now@, role, wanted),
{
    let _ = get(s, now, role);
    table::change(
        &mut s.roles,
        |a: &RoleRow| -> (b: bool)
            ensures b == (of_role(role))(a@)
            { is_role(a, role) },
        |a: &RoleRow| -> (x: RoleRow)
            ensures x@ == (wanted_or_not(wanted, now@))(a@)
            {
                RoleRow {
                    desired_running: if wanted { 1 } else { 0 },
                    watchdog_attempts: 0,
                    watchdog_next_at: None,
                    watchdog_gave_up_at: None,
                    watchdog_last_error: None,
                    updated_at: now.to_owned(),
                    ..a.copied()
                }
            },
        Ghost(of_role(role)),
        Ghost(wanted_or_not(wanted, now@)),
    );
}

/// A role in a state.
pub open spec fn with_status(status: Seq<char>, detail: Option<Seq<char>>, reset_at: Option<Seq<char>>, now: Seq<char>) -> spec_fn(RoleRowView) -> RoleRowView {
    |a: RoleRowView|
        (RoleRowView {
            status: status,
            status_detail: detail,
            quota_reset_at: reset_at,
            updated_at: now,
            waiting_since: if status == "waiting_quota"@ {
                if a.waiting_since is Some {
                    a.waiting_since
                } else {
                    Some(now)
                }
            } else {
                None
            },
            ..a
        })
}

/// The store with the state of a role.
pub open spec fn status_set(s: StoreView, now: Seq<char>, role: Role, status: Seq<char>, detail: Option<Seq<char>>, reset_at: Option<Seq<char>>) -> StoreView {
    StoreView { roles: table::changed(s.roles, of_role(role), with_status(status, detail, reset_at, now)), ..s }
}

/// The beginning of a wait is recorded when the wait begins; refreshing its detail does not move it,
/// and leaving it clears it.
pub fn set_status(s: &mut Store, now: &str, role: Role, status: &str, detail: Option<&str>, reset_at: Option<&str>)
    ensures
        final(s)@ == status_set(old(s)@, now@, role, status@, text::arg(detail), text::arg(reset_at)),
{
    table::change(
        &mut s.roles,
        |a: &RoleRow| -> (b: bool)
            ensures b == (of_role(role))(a@)
            { is_role(a, role) },
        |a: &RoleRow| -> (x: RoleRow)
            ensures x@ == (with_status(status@, text::arg(detail), text::arg(reset_at), now@))(a@)
            {
                RoleRow {
                    status: status.to_owned(),
                    status_detail: text::owned(detail),
                    quota_reset_at: text::owned(reset_at),
                    updated_at: now.to_owned(),
                    waiting_since: if text::same(status, "waiting_quota") {
                        if a.waiting_since.is_some() {
                            text::copied(&a.waiting_since)
                        } else {
                            Some(now.to_owned())
                        }
                    } else {
                        None
                    },
                    ..a.copied()
                }
            },
        Ghost(of_role(role)),
        Ghost(with_status(status@, text::arg(detail), text::arg(reset_at), now@)),
    );
}

/// A role with another detail.
pub open spec fn with_detail(detail: Option<Seq<char>>, now: Seq<char>) -> spec_fn(RoleRowView) -> RoleRowView {
    |a: RoleRowView|
        (RoleRowView {
            status_detail: detail,
            updated_at: now,
            ..a
        })
}

/// The store with the detail of a role's state.
pub open spec fn detail_set(s: StoreView, now: Seq<char>, role: Role, detail: Option<Seq<char>>) -> StoreView {
    StoreView { roles: table::changed(s.roles, of_role(role), with_detail(detail, now)), ..s }
}

/// Change only the human-readable detail.
pub fn set_status_detail(s: &mut Store, now: &str, role: Role, detail: Option<&str>)
    ensures
        final(s)@ == detail_set(old(s)@, now@, role, text::arg(detail)),
{
    table::change(
        &mut s.roles,
        |a: &RoleRow| -> (b: bool)
            ensures b == (of_role(role))(a@)
            { is_role(a, role) },
        |a: &RoleRow| -> (x: RoleRow)
            ensures x@ == (with_detail(text::arg(detail), now@))(a@)
            {
                RoleRow {
                    status_detail: text::owned(detail),
                    updated_at: now.to_owned(),
                    ..a.copied()
                }
            },
        Ghost(of_role(role)),
        Ghost(with_detail(text::arg(detail), now@)),
    );
}

/// A role with its watchdog's count.
pub open spec fn watched(attempts: i64, next_at: Option<Seq<char>>, error: Option<Seq<char>>, now: Seq<char>) -> spec_fn(RoleRowView) -> RoleRowView {
    |a: RoleRowView|
        (RoleRowView {
            watchdog_attempts: attempts,
            watchdog_next_at: next_at,
            watchdog_last_error: if error is Some { error } else if attempts == 0 && next_at is None { None } else { a.watchdog_last_error },
            watchdog_gave_up_at: if attempts == 0 && next_at is None { None } else { a.watchdog_gave_up_at },
            updated_at: now,
            ..a
        })
}

/// The store with the count of a role's watchdog.
pub open spec fn watchdog_set(s: StoreView, now: Seq<char>, role: Role, attempts: i64, next_at: Option<Seq<char>>, error: Option<Seq<char>>) -> StoreView {
    StoreView { roles: table::changed(s.roles, of_role(role), watched(attempts, next_at, error, now)), ..s }
}

/// The end of a streak, no attempts and none due, also clears the record of giving up.
pub fn set_watchdog(s: &mut Store, now: &str, role: Role, attempts: i64, next_at: Option<&str>, error: Option<&str>)
    ensures
        final(s)@ == watchdog_set(old(s)@, now@, role, attempts, text::arg(next_at), text::arg(error)),
{
    table::change(
        &mut s.roles,
        |a: &RoleRow| -> (b: bool)
            ensures b == (of_role(role))(a@)
            { is_role(a, role) },
        |a: &RoleRow| -> (x: RoleRow)
            ensures x@ == (watched(attempts, text::arg(next_at), text::arg(error), now@))(a@)
            {
                RoleRow {
                    watchdog_attempts: attempts,
                    watchdog_next_at: text::owned(next_at),
                    watchdog_last_error: if error.is_some() {
                        text::owned(error)
                    } else if attempts == 0 && next_at.is_none() {
                        None
                    } else {
                        text::copied(&a.watchdog_last_error)
                    },
                    watchdog_gave_up_at: if attempts == 0 && next_at.is_none() {
                        None
                    } else {
                        text::copied(&a.watchdog_gave_up_at)
                    },
                    updated_at: now.to_owned(),
                    ..a.copied()
                }
            },
        Ghost(of_role(role)),
        Ghost(watched(attempts, text::arg(next_at), text::arg(error), now@)),
    );
}

/// The row of a role whose watchdog has not given up.
pub open spec fn still_watched(role: Role) -> spec_fn(RoleRowView) -> bool {
    |a: RoleRowView| a.role == role.name() && a.watchdog_gave_up_at is None
}

/// A role whose watchdog gave up.
pub open spec fn given_up(why: Seq<char>, now: Seq<char>) -> spec_fn(RoleRowView) -> RoleRowView {
    |a: RoleRowView|
        (RoleRowView {
            watchdog_gave_up_at: Some(now),
            watchdog_last_error: Some(why),
            updated_at: now,
            ..a
        })
}

/// What giving up on a role answers and leaves in the store.
pub open spec fn giving_up(s: StoreView, now: Seq<char>, role: Role, why: Seq<char>, first: bool, after: StoreView) -> bool {
    &&& first == table::any(s.roles, still_watched(role))
    &&& after == (StoreView { roles: table::changed(s.roles, still_watched(role), given_up(why, now)), ..s })
}

/// Record that the watchdog stopped retrying. True only for the first call to say so.
pub fn mark_watchdog_gave_up(s: &mut Store, now: &str, role: Role, why: &str) -> (first: bool)
    ensures
        giving_up(old(s)@, now@, role, why@, first, final(s)@),
{
    let ghost was = s@.roles;
    let n = table::change(
        &mut s.roles,
        |a: &RoleRow| -> (b: bool)
            ensures b == (still_watched(role))(a@)
            { is_role(a, role) && a.watchdog_gave_up_at.is_none() },
        |a: &RoleRow| -> (x: RoleRow)
            ensures x@ == (given_up(why@, now@))(a@)
            {
                RoleRow {
                    watchdog_gave_up_at: Some(now.to_owned()),
                    watchdog_last_error: Some(why.to_owned()),
                    updated_at: now.to_owned(),
                    ..a.copied()
                }
            },
        Ghost(still_watched(role)),
        Ghost(given_up(why@, now@)),
    );
    proof {
        table::any_is_counted(was, still_watched(role));
    }
    n > 0
}

/// A role with its next notification.
pub open spec fn next_try(next_at: Option<Seq<char>>, now: Seq<char>) -> spec_fn(RoleRowView) -> RoleRowView {
    |a: RoleRowView|
        (RoleRowView {
            notify_next_at: next_at,
            updated_at: now,
            ..a
        })
}

/// The store with when a role may be told something next.
pub open spec fn next_try_set(s: StoreView, now: Seq<char>, role: Role, next_at: Option<Seq<char>>) -> StoreView {
    StoreView { roles: table::changed(s.roles, of_role(role), next_try(next_at, now)), ..s }
}

/// Record when a notification may be tried next.
pub fn set_notify_next(s: &mut Store, now: &str, role: Role, next_at: Option<&str>)
    ensures
        final(s)@ == next_try_set(old(s)@, now@, role, text::arg(next_at)),
{
    table::change(
        &mut s.roles,
        |a: &RoleRow| -> (b: bool)
            ensures b == (of_role(role))(a@)
            { is_role(a, role) },
        |a: &RoleRow| -> (x: RoleRow)
            ensures x@ == (next_try(text::arg(next_at), now@))(a@)
            {
                RoleRow {
                    notify_next_at: text::owned(next_at),
                    updated_at: now.to_owned(),
                    ..a.copied()
                }
            },
        Ghost(of_role(role)),
        Ghost(next_try(text::arg(next_at), now@)),
    );
}

/// A role that was woken.
pub open spec fn woken(events: nat, reason: Seq<char>, now: Seq<char>) -> spec_fn(RoleRowView) -> RoleRowView {
    |a: RoleRowView|
        (RoleRowView {
            wakes: table::bumped(a.wakes),
            events_delivered: added(a.events_delivered, events),
            last_wake_at: Some(now),
            last_wake_reason: Some(reason),
            last_notify_at: Some(now),
            notify_next_at: None,
            updated_at: now,
            ..a
        })
}

/// The store after a role was woken.
pub open spec fn wake_recorded(s: StoreView, now: Seq<char>, role: Role, events: nat, reason: Seq<char>) -> StoreView {
    StoreView { roles: table::changed(with_role(s.roles, role, now), of_role(role), woken(events, reason, now)), ..s }
}

/// A wake-up that really went out.
pub fn record_wake(s: &mut Store, now: &str, role: Role, events: usize, reason: &str)
    ensures
        final(s)@ == wake_recorded(old(s)@, now@, role, events as nat, reason@),
{
    let _ = get(s, now, role);
    table::change(
        &mut s.roles,
        |a: &RoleRow| -> (b: bool)
            ensures b == (of_role(role))(a@)
            { is_role(a, role) },
        |a: &RoleRow| -> (x: RoleRow)
            ensures x@ == (woken(events as nat, reason@, now@))(a@)
            {
                RoleRow {
                    wakes: table::bump(a.wakes),
                    events_delivered: plus(a.events_delivered, events),
                    last_wake_at: Some(now.to_owned()),
                    last_wake_reason: Some(reason.to_owned()),
                    last_notify_at: Some(now.to_owned()),
                    notify_next_at: None,
                    updated_at: now.to_owned(),
                    ..a.copied()
                }
            },
        Ghost(of_role(role)),
        Ghost(woken(events as nat, reason@, now@)),
    );
}

/// A role that an event was reported to again.
pub open spec fn repeated(now: Seq<char>) -> spec_fn(RoleRowView) -> RoleRowView {
    |a: RoleRowView|
        (RoleRowView {
            duplicates: table::bumped(a.duplicates),
            updated_at: now,
            ..a
        })
}

/// The store after an event was reported to a role again.
pub open spec fn duplicate_counted(s: StoreView, now: Seq<char>, role: Role) -> StoreView {
    StoreView { roles: table::changed(with_role(s.roles, role, now), of_role(role), repeated(now)), ..s }
}

/// Count an event that was reported again.
pub fn count_duplicate(s: &mut Store, now: &str, role: Role)
    ensures
        final(s)@ == duplicate_counted(old(s)@, now@, role),
{
    let _ = get(s, now, role);
    table::change(
        &mut s.roles,
        |a: &RoleRow| -> (b: bool)
            ensures b == (of_role(role))(a@)
            { is_role(a, role) },
        |a: &RoleRow| -> (x: RoleRow)
            ensures x@ == (repeated(now@))(a@)
            {
                RoleRow {
                    duplicates: table::bump(a.duplicates),
                    updated_at: now.to_owned(),
                    ..a.copied()
                }
            },
        Ghost(of_role(role)),
        Ghost(repeated(now@)),
    );
}

/// A role whose events were folded.
pub open spec fn folded(n: nat, now: Seq<char>) -> spec_fn(RoleRowView) -> RoleRowView {
    |a: RoleRowView|
        (RoleRowView {
            merged: added(a.merged, n),
            updated_at: now,
            ..a
        })
}

/// The store after events of a role were folded.
pub open spec fn merged_counted(s: StoreView, now: Seq<char>, role: Role, n: nat) -> StoreView {
    StoreView { roles: table::changed(with_role(s.roles, role, now), of_role(role), folded(n, now)), ..s }
}

/// Count events that were folded into others.
pub(crate) fn add_merged(s: &mut Store, now: &str, role: Role, n: usize)
    ensures
        final(s)@ == merged_counted(old(s)@, now@, role, n as nat),
{
    let _ = get(s, now, role);
    table::change(
        &mut s.roles,
        |a: &RoleRow| -> (b: bool)
            ensures b == (of_role(role))(a@)
            { is_role(a, role) },
        |a: &RoleRow| -> (x: RoleRow)
            ensures x@ == (folded(n as nat, now@))(a@)
            {
                RoleRow {
                    merged: plus(a.merged, n),
                    updated_at: now.to_owned(),
                    ..a.copied()
                }
            },
        Ghost(of_role(role)),
        Ghost(folded(n as nat, now@)),
    );
}

// ---------------------------------------------------------------- bots

/// The responder was set up: there is a bot on its row.
pub open spec fn responder_is_set_up(s: StoreView, now: Seq<char>) -> bool {
    role_row(s.roles, Role::Responder, now).bot_id is Some
}

/// A responder was set up, whether or not its bot is alive: from then on its events are its own.
pub fn responder_configured(s: &mut Store, now: &str) -> (r: bool)
    ensures
        final(s)@ == (StoreView { roles: with_role(old(s)@.roles, Role::Responder, now@), ..old(s)@ }),
        r == responder_is_set_up(old(s)@, now@),
{
    get(s, now, Role::Responder).bot_id.is_some()
}

/// The bot that a role is registered with.
pub open spec fn registered(s: StoreView, role: Role) -> Option<Seq<char>> {
    match role {
        Role::Patrol => match s.supervisor {
            Some(r) => r.bot_id,
            None => None,
        },
        Role::Responder => match table::first(s.roles, of_role(Role::Responder)) {
            Some(r) => r.bot_id,
            None => None,
        },
    }
}

/// The store with the row that a role is registered in.
pub open spec fn with_row_of(s: StoreView, role: Role, now: Seq<char>) -> StoreView {
    match role {
        Role::Patrol => supervisor::initialised(s, now),
        Role::Responder => StoreView { roles: with_role(s.roles, Role::Responder, now), ..s },
    }
}

/// A row that is made for a role registers nobody.
pub proof fn a_fresh_row_registers_nobody(s: StoreView, role: Role, now: Seq<char>, of: Role)
    ensures
        registered(with_row_of(s, role, now), of) == registered(s, of),
{
    a_role_has_a_row(s.roles, Role::Responder, now);
    table::first_is_a_hit(s.roles, of_role(Role::Responder));
}

/// The bot that a role is registered with, alive or not. The row it stands in is made on the first call.
pub fn bot_for(s: &mut Store, now: &str, role: Role) -> (r: Option<String>)
    ensures
        final(s)@ == with_row_of(old(s)@, role, now@),
        text::opt(r) == registered(old(s)@, role),
{
    let r = registered_bot(s, role);
    match role {
        Role::Patrol => {
            let _ = store::get_or_init(s, now);
        },
        Role::Responder => {
            let _ = get(s, now, Role::Responder);
        },
    }
    r
}

pub(crate) fn registered_bot(s: &Store, role: Role) -> (r: Option<String>)
    ensures
        text::opt(r) == registered(s@, role),
{
    match role {
        Role::Patrol => match &s.supervisor {
            Some(r) => text::copied(&r.bot_id),
            None => None,
        },
        Role::Responder => match row_of(s, Role::Responder) {
            Some(r) => r.bot_id,
            None => None,
        },
    }
}

/// The bot of the responder, where it was set up and its bot is still there.
pub open spec fn live_responder(s: StoreView, now: Seq<char>, bots: Seq<BotEntryView>) -> Option<Seq<char>> {
    match role_row(s.roles, Role::Responder, now).bot_id {
        Some(id) => if table::any(bots, supervisor::live_bot(id)) {
            Some(id)
        } else {
            None
        },
        None => None,
    }
}

/// The bot of the responder, if it is still there. That it is not does not make patrol answer for both:
/// see [`responder_configured`].
pub fn responder_bot(s: &mut Store, now: &str, bots: &Vec<BotEntry>) -> (r: Option<String>)
    ensures
        final(s)@ == (StoreView { roles: with_role(old(s)@.roles, Role::Responder, now@), ..old(s)@ }),
        text::opt(r) == live_responder(old(s)@, now@, table::views(bots@)),
{
    match get(s, now, Role::Responder).bot_id {
        Some(id) => if supervisor::is_live(bots, id.as_str()) {
            Some(id)
        } else {
            None
        },
        None => None,
    }
}

/// The store with the rows that are read to tell the role of a bot: that of patrol, and that of the
/// responder where the bot is not patrol's.
pub open spec fn looked_up(s: StoreView, bot_id: Seq<char>, now: Seq<char>) -> StoreView {
    let base = with_row_of(s, Role::Patrol, now);
    if registered(s, Role::Patrol) == Some(bot_id) {
        base
    } else {
        with_row_of(base, Role::Responder, now)
    }
}

/// Which role a bot has, if it has one. The rows that are read are made on the first call.
pub fn role_of_bot(s: &mut Store, now: &str, bot_id: &str) -> (r: Option<Role>)
    ensures
        final(s)@ == looked_up(old(s)@, bot_id@, now@),
        r == supervisor::role_of(old(s)@, bot_id@),
{
    let r = role_in(s, bot_id);
    proof {
        a_fresh_row_registers_nobody(s@, Role::Patrol, now@, Role::Responder);
    }
    if text::is_text(&bot_for(s, now, Role::Patrol), bot_id) {
        return r;
    }
    let _ = bot_for(s, now, Role::Responder);
    r
}

pub(crate) fn role_in(s: &Store, bot_id: &str) -> (r: Option<Role>)
    ensures
        r == supervisor::role_of(s@, bot_id@),
{
    if text::is_text(&registered_bot(s, Role::Patrol), bot_id) {
        return Some(Role::Patrol);
    }
    if text::is_text(&registered_bot(s, Role::Responder), bot_id) {
        return Some(Role::Responder);
    }
    None
}

// ---------------------------------------------------------------- laws

/// The name of a role reads back as that role.
pub proof fn a_role_is_known_by_its_name(role: Role)
    ensures
        Role::named(role.name()) == Some(role),
{
    reveal_strlit("patrol");
    reveal_strlit("responder");
    assert("patrol"@.len() == 6 && "responder"@.len() == 9);
    text::nothing_to_trim("patrol"@);
    text::nothing_to_trim("responder"@);
}

/// Bot business never wakes patrol, unless patrol is named for it: an approval, a mission, and what
/// a bot asks for without naming a role all go to the responder.
pub proof fn bot_business_goes_to_the_responder(kind: Seq<char>, f: RouteFactsView, review_role: Option<Seq<char>>)
    ensures
        for_the_responder(kind) ==> routing(kind, f, review_role) == Some(Route { role: Role::Responder, wake: true }),
        kind == "bot_request"@ && f.to_role is None ==> routing(kind, f, review_role) is Some && routing(
            kind,
            f,
            review_role,
        )->0.role == Role::Responder,
{
    kinds_apart();
}

/// A recovery wakes nobody: the fault already did. Nor does what only records.
pub proof fn a_recovery_wakes_nobody(kind: Seq<char>, f: RouteFactsView, review_role: Option<Seq<char>>)
    ensures
        kind == "incident_resolved"@ ==> routing(kind, f, review_role) is Some && !routing(kind, f, review_role)->0.wake,
        only_records(kind) ==> routing(kind, f, review_role) is Some && !routing(kind, f, review_role)->0.wake,
{
    kinds_apart();
}

/// The fall of one half of the manager is told to the other half, and wakes it.
pub proof fn a_fallen_half_is_reported_to_the_other(f: RouteFactsView, review_role: Option<Seq<char>>)
    ensures
        routing("watchdog_gave_up"@, f, review_role) == Some(Route { role: Role::Responder, wake: true }),
        routing("responder_watchdog_gave_up"@, f, review_role) == Some(Route { role: Role::Patrol, wake: true }),
        routing("responder_bot_missing"@, f, review_role) == Some(Route { role: Role::Patrol, wake: true }),
        f.incident_kind == Some("notify_exhausted"@) ==> routing("incident_opened"@, f, review_role) == Some(
            Route { role: Role::Responder, wake: true },
        ),
{
    kinds_apart();
    assert(for_the_responder("watchdog_gave_up"@));
    assert(for_patrol("responder_watchdog_gave_up"@));
    assert(for_patrol("responder_bot_missing"@));
    assert(for_patrol("incident_opened"@));
    assert(!for_the_responder("responder_watchdog_gave_up"@));
    assert(!for_the_responder("responder_bot_missing"@));
    assert(!for_the_responder("incident_opened"@));
}

/// Every kind of event that is written here has a branch of its own: none is left to the default.
pub proof fn whatever_is_written_has_a_branch(f: RouteFactsView, review_role: Option<Seq<char>>)
    ensures
        routing("assignment_noticed"@, f, review_role) is Some,
        routing("assignment_quota_blocked"@, f, review_role) is Some,
        routing("assignment_quota_resumed"@, f, review_role) is Some,
        routing("responder_bot_missing"@, f, review_role) is Some,
        routing("responder_watchdog_gave_up"@, f, review_role) is Some,
        routing("watchdog_gave_up"@, f, review_role) is Some,
        routing("ops_alert"@, f, review_role) == Some(Route { role: Role::Patrol, wake: true }),
{
    kinds_apart();
    assert(for_patrol("ops_alert"@));
    assert(!for_the_responder("ops_alert"@));
    reveal_strlit("ops_alert");
    reveal_strlit("incident_opened");
    assert("ops_alert"@.len() == 9 && "incident_opened"@.len() == 15);
}

/// Recording where a role works changes the bot, the project and the directory of that role alone.
pub proof fn where_a_role_works_is_on_record(
    s: StoreView,
    now: Seq<char>,
    role: Role,
    bot_id: Seq<char>,
    project_id: Seq<char>,
    cwd: Seq<char>,
    i: int,
)
    requires
        0 <= i < with_role(s.roles, role, now).len(),
    ensures
        env_set(s, now, role, bot_id, project_id, cwd) == (StoreView { roles: env_set(s, now, role, bot_id, project_id, cwd).roles, ..s }),
        env_set(s, now, role, bot_id, project_id, cwd).roles.len() == with_role(s.roles, role, now).len(),
        ({
            let was = with_role(s.roles, role, now)[i];
            env_set(s, now, role, bot_id, project_id, cwd).roles[i] == if was.role == (if role == Role::Patrol {
                "patrol"@
            } else {
                "responder"@
            }) {
                RoleRowView { bot_id: Some(bot_id), project_id: Some(project_id), cwd: Some(cwd), updated_at: now, ..was }
            } else {
                was
            }
        }),
{
}

/// Recording what a role runs on changes its identity, its model and its effort, and no other role.
pub proof fn what_a_role_runs_on_is_on_record(
    s: StoreView,
    now: Seq<char>,
    role: Role,
    identity: Seq<char>,
    model: Seq<char>,
    effort: Seq<char>,
    i: int,
)
    requires
        0 <= i < with_role(s.roles, role, now).len(),
    ensures
        runtime_set(s, now, role, identity, model, effort) == (StoreView { roles: runtime_set(s, now, role, identity, model, effort).roles, ..s }),
        runtime_set(s, now, role, identity, model, effort).roles.len() == with_role(s.roles, role, now).len(),
        ({
            let was = with_role(s.roles, role, now)[i];
            runtime_set(s, now, role, identity, model, effort).roles[i] == if was.role == (if role == Role::Patrol {
                "patrol"@
            } else {
                "responder"@
            }) {
                RoleRowView { identity, model, effort, updated_at: now, ..was }
            } else {
                was
            }
        }),
{
}

/// A start or a stop by hand says whether the role is wanted and wipes what its watchdog had counted.
pub proof fn a_start_or_stop_by_hand_begins_anew(
    s: StoreView,
    now: Seq<char>,
    role: Role,
    wanted: bool,
    i: int,
)
    requires
        0 <= i < with_role(s.roles, role, now).len(),
    ensures
        wanted_set(s, now, role, wanted) == (StoreView { roles: wanted_set(s, now, role, wanted).roles, ..s }),
        wanted_set(s, now, role, wanted).roles.len() == with_role(s.roles, role, now).len(),
        ({
            let was = with_role(s.roles, role, now)[i];
            wanted_set(s, now, role, wanted).roles[i] == if was.role == (if role == Role::Patrol {
                "patrol"@
            } else {
                "responder"@
            }) {
                RoleRowView {
                    desired_running: if wanted {
                        1
                    } else {
                        0
                    },
                    watchdog_attempts: 0,
                    watchdog_next_at: None,
                    watchdog_gave_up_at: None,
                    watchdog_last_error: None,
                    updated_at: now,
                    ..was
                }
            } else {
                was
            }
        }),
{
}

/// The state of a role is written with its detail and its reset; a wait for quota keeps the moment it
/// began, and any other state has none.
pub proof fn a_wait_keeps_its_beginning(
    s: StoreView,
    now: Seq<char>,
    role: Role,
    status: Seq<char>,
    detail: Option<Seq<char>>,
    reset_at: Option<Seq<char>>,
    i: int,
)
    requires
        0 <= i < s.roles.len(),
    ensures
        status_set(s, now, role, status, detail, reset_at) == (StoreView { roles: status_set(s, now, role, status, detail, reset_at).roles, ..s }),
        status_set(s, now, role, status, detail, reset_at).roles.len() == s.roles.len(),
        ({
            let was = s.roles[i];
            status_set(s, now, role, status, detail, reset_at).roles[i] == if was.role == (if role == Role::Patrol {
                "patrol"@
            } else {
                "responder"@
            }) {
                RoleRowView {
                    status,
                    status_detail: detail,
                    quota_reset_at: reset_at,
                    waiting_since: if status != "waiting_quota"@ {
                        None
                    } else if was.waiting_since is None {
                        Some(now)
                    } else {
                        was.waiting_since
                    },
                    updated_at: now,
                    ..was
                }
            } else {
                was
            }
        }),
{
}

/// A new detail changes the detail.
pub proof fn a_detail_moves_nothing_else(
    s: StoreView,
    now: Seq<char>,
    role: Role,
    detail: Option<Seq<char>>,
    i: int,
)
    requires
        0 <= i < s.roles.len(),
    ensures
        detail_set(s, now, role, detail) == (StoreView { roles: detail_set(s, now, role, detail).roles, ..s }),
        detail_set(s, now, role, detail).roles.len() == s.roles.len(),
        ({
            let was = s.roles[i];
            detail_set(s, now, role, detail).roles[i] == if was.role == (if role == Role::Patrol {
                "patrol"@
            } else {
                "responder"@
            }) {
                RoleRowView { status_detail: detail, updated_at: now, ..was }
            } else {
                was
            }
        }),
{
}

/// A watchdog's count is written with when the next try is due; an error is kept until another comes or
/// the streak ends, and the end of a streak, no attempt and none due, forgets that it gave up.
pub proof fn a_streak_ends_with_its_records(
    s: StoreView,
    now: Seq<char>,
    role: Role,
    attempts: i64,
    next_at: Option<Seq<char>>,
    error: Option<Seq<char>>,
    i: int,
)
    requires
        0 <= i < s.roles.len(),
    ensures
        watchdog_set(s, now, role, attempts, next_at, error) == (StoreView { roles: watchdog_set(s, now, role, attempts, next_at, error).roles, ..s }),
        watchdog_set(s, now, role, attempts, next_at, error).roles.len() == s.roles.len(),
        ({
            let was = s.roles[i];
            watchdog_set(s, now, role, attempts, next_at, error).roles[i] == if was.role == (if role == Role::Patrol {
                "patrol"@
            } else {
                "responder"@
            }) {
                RoleRowView {
                    watchdog_attempts: attempts,
                    watchdog_next_at: next_at,
                    watchdog_last_error: if error is None && (attempts != 0 || next_at is Some) {
                        was.watchdog_last_error
                    } else {
                        error
                    },
                    watchdog_gave_up_at: if attempts != 0 || next_at is Some {
                        was.watchdog_gave_up_at
                    } else {
                        None
                    },
                    updated_at: now,
                    ..was
                }
            } else {
                was
            }
        }),
{
}

/// When a role may be told something next is written on that role alone.
pub proof fn the_next_try_of_a_role_is_on_record(
    s: StoreView,
    now: Seq<char>,
    role: Role,
    next_at: Option<Seq<char>>,
    i: int,
)
    requires
        0 <= i < s.roles.len(),
    ensures
        next_try_set(s, now, role, next_at) == (StoreView { roles: next_try_set(s, now, role, next_at).roles, ..s }),
        next_try_set(s, now, role, next_at).roles.len() == s.roles.len(),
        ({
            let was = s.roles[i];
            next_try_set(s, now, role, next_at).roles[i] == if was.role == (if role == Role::Patrol {
                "patrol"@
            } else {
                "responder"@
            }) {
                RoleRowView { notify_next_at: next_at, updated_at: now, ..was }
            } else {
                was
            }
        }),
{
}

/// A wake counts once, with the events it carried, and says when it was and why; the wait before it is
/// over.
pub proof fn a_wake_is_counted(
    s: StoreView,
    now: Seq<char>,
    role: Role,
    events: nat,
    reason: Seq<char>,
    i: int,
)
    requires
        0 <= i < with_role(s.roles, role, now).len(),
    ensures
        wake_recorded(s, now, role, events, reason) == (StoreView { roles: wake_recorded(s, now, role, events, reason).roles, ..s }),
        wake_recorded(s, now, role, events, reason).roles.len() == with_role(s.roles, role, now).len(),
        ({
            let was = with_role(s.roles, role, now)[i];
            wake_recorded(s, now, role, events, reason).roles[i] == if was.role == (if role == Role::Patrol {
                "patrol"@
            } else {
                "responder"@
            }) {
                RoleRowView {
                    wakes: if was.wakes < i64::MAX {
                        (was.wakes + 1) as i64
                    } else {
                        i64::MAX
                    },
                    events_delivered: if was.events_delivered + events < i64::MAX {
                        (was.events_delivered + events) as i64
                    } else {
                        i64::MAX
                    },
                    last_wake_at: Some(now),
                    last_wake_reason: Some(reason),
                    last_notify_at: Some(now),
                    notify_next_at: None,
                    updated_at: now,
                    ..was
                }
            } else {
                was
            }
        }),
{
}

/// An event that was reported again counts once more.
pub proof fn a_repetition_is_counted(
    s: StoreView,
    now: Seq<char>,
    role: Role,
    i: int,
)
    requires
        0 <= i < with_role(s.roles, role, now).len(),
    ensures
        duplicate_counted(s, now, role) == (StoreView { roles: duplicate_counted(s, now, role).roles, ..s }),
        duplicate_counted(s, now, role).roles.len() == with_role(s.roles, role, now).len(),
        ({
            let was = with_role(s.roles, role, now)[i];
            duplicate_counted(s, now, role).roles[i] == if was.role == (if role == Role::Patrol {
                "patrol"@
            } else {
                "responder"@
            }) {
                RoleRowView {
                    duplicates: if was.duplicates < i64::MAX {
                        (was.duplicates + 1) as i64
                    } else {
                        i64::MAX
                    },
                    updated_at: now,
                    ..was
                }
            } else {
                was
            }
        }),
{
}

/// The events that were folded are counted.
pub proof fn a_fold_is_counted(
    s: StoreView,
    now: Seq<char>,
    role: Role,
    n: nat,
    i: int,
)
    requires
        0 <= i < with_role(s.roles, role, now).len(),
    ensures
        merged_counted(s, now, role, n) == (StoreView { roles: merged_counted(s, now, role, n).roles, ..s }),
        merged_counted(s, now, role, n).roles.len() == with_role(s.roles, role, now).len(),
        ({
            let was = with_role(s.roles, role, now)[i];
            merged_counted(s, now, role, n).roles[i] == if was.role == (if role == Role::Patrol {
                "patrol"@
            } else {
                "responder"@
            }) {
                RoleRowView {
                    merged: if was.merged + n < i64::MAX {
                        (was.merged + n) as i64
                    } else {
                        i64::MAX
                    },
                    updated_at: now,
                    ..was
                }
            } else {
                was
            }
        }),
{
}

/// A watchdog gives up once: the call that says so first is told, with the reason on record, and a later
/// one changes nothing.
pub proof fn giving_up_is_recorded_once(
    s: StoreView,
    now: Seq<char>,
    role: Role,
    why: Seq<char>,
    first: bool,
    after: StoreView,
    i: int,
)
    requires
        giving_up(s, now, role, why, first, after),
    ensures
        after == (StoreView { roles: after.roles, ..s }),
        after.roles.len() == s.roles.len(),
        first <==> exists|k: int|
            0 <= k < s.roles.len() && (#[trigger] s.roles[k]).watchdog_gave_up_at is None && s.roles[k].role == (if role
                == Role::Patrol {
                "patrol"@
            } else {
                "responder"@
            }),
        0 <= i < s.roles.len() ==> {
            let was = s.roles[i];
            after.roles[i] == if was.watchdog_gave_up_at is None && was.role == (if role == Role::Patrol {
                "patrol"@
            } else {
                "responder"@
            }) {
                RoleRowView {
                    watchdog_gave_up_at: Some(now),
                    watchdog_last_error: Some(why),
                    updated_at: now,
                    ..was
                }
            } else {
                was
            }
        },
{
    let hit = still_watched(role);
    if first {
        let k = choose|k: int| 0 <= k < s.roles.len() && hit(#[trigger] s.roles[k]);
        assert(s.roles[k].watchdog_gave_up_at is None);
    } else {
        assert forall|k: int| 0 <= k < s.roles.len() implies !hit(#[trigger] s.roles[k]) by {}
    }
}

/// Reading a role makes a row for it where there is none, and only there: nobody works in it yet, it
/// is not wanted, its watchdog has counted nothing, and it runs on what every role starts with.
pub proof fn a_role_starts_with_nothing_on_record(rows: Seq<RoleRowView>, role: Role, now: Seq<char>)
    ensures
        ({
            let name = if role == Role::Patrol {
                "patrol"@
            } else {
                "responder"@
            };
            let after = with_role(rows, role, now);
            let row = role_row(rows, role, now);
            &&& after.contains(row)
            &&& row.role == name
            &&& (exists|i: int| 0 <= i < rows.len() && (#[trigger] rows[i]).role == name) ==> after == rows
            &&& !(exists|i: int| 0 <= i < rows.len() && (#[trigger] rows[i]).role == name) ==> {
                &&& after == rows.push(row)
                &&& row.bot_id is None && row.project_id is None && row.cwd is None
                &&& row.identity == "cc0"@ && row.model == "opus"@ && row.effort == "high"@
                &&& row.desired_running == 0
                &&& row.status == ""@ && row.status_detail is None && row.quota_reset_at is None
                &&& row.waiting_since is None
                &&& row.watchdog_attempts == 0 && row.watchdog_next_at is None && row.watchdog_gave_up_at is None
                &&& row.watchdog_last_error is None
                &&& row.last_notify_at is None && row.notify_next_at is None
                &&& row.last_wake_at is None && row.last_wake_reason is None
                &&& row.wakes == 0 && row.events_delivered == 0 && row.duplicates == 0 && row.merged == 0
                &&& row.persona_text is None && row.persona_version == 0 && row.persona_hash is None
                &&& row.persona_source is None && row.persona_updated_at is None && row.persona_seed_hash is None
                &&& row.created_at == now && row.updated_at == now
            }
        }),
{
    let hit = of_role(role);
    a_role_has_a_row(rows, role, now);
    table::first_is_a_hit(with_role(rows, role, now), hit);
    if table::any(rows, hit) {
        let k = choose|k: int| 0 <= k < rows.len() && hit(#[trigger] rows[k]);
        assert(rows[k].role == role.name());
    } else {
        assert forall|k: int| 0 <= k < rows.len() implies (#[trigger] rows[k]).role != role.name() by {
            assert(!hit(rows[k]));
        }
    }
}

/// A text names a role by its name, with white space around it or without, and nothing else does.
pub proof fn a_role_has_one_name(text: Seq<char>)
    ensures
        Role::named(text) == Some(Role::Patrol) <==> text::trimmed(text) == "patrol"@,
        Role::named(text) == Some(Role::Responder) <==> text::trimmed(text) == "responder"@,
{
    reveal_strlit("patrol");
    reveal_strlit("responder");
    assert("patrol"@.len() == 6 && "responder"@.len() == 9);
}

/// What a payload says to routing is read where it is written.
pub proof fn routing_reads_the_payload(payload: Seq<char>)
    ensures
        facts_of(payload).needs_review == json::json_bool_at(payload, "/needs_review"@),
        facts_of(payload).wake == json::json_bool_at(payload, "/wake"@),
        facts_of(payload).to_role == json::json_str_at(payload, "/to_role"@),
        facts_of(payload).incident_kind == json::json_str_at(payload, "/incident/kind"@),
        facts_of(payload).manager_status == json::json_str_at(payload, "/manager_health/status"@),
        facts_of(payload).responder_status == json::json_str_at(payload, "/responder_health/status"@),
{
}

/// What a bot asks for goes to the role it names, and to the responder where it names none; it wakes
/// unless it says not to. What became of an assignment goes to the role that is to accept it, and to
/// the responder where none is on record: an end wakes unless it needs no acceptance, an assignment
/// that could not be delivered always wakes, and what the controller handles by itself never does.
pub proof fn work_is_reported_to_who_accepts_it(kind: Seq<char>, f: RouteFactsView, review_role: Option<Seq<char>>)
    ensures
        ({
            let by = if review_role is Some && text::trimmed(review_role->0) == "patrol"@ {
                Role::Patrol
            } else {
                Role::Responder
            };
            let asked = if f.to_role is Some && text::trimmed(f.to_role->0) == "patrol"@ {
                Role::Patrol
            } else {
                Role::Responder
            };
            let r = routed(kind, f, review_role);
            &&& kind == "bot_request"@ ==> r.role == asked && (r.wake <==> f.wake != Some(false))
            &&& kind == "assignment_completed"@ ==> r.role == by && (r.wake <==> f.needs_review != Some(false))
            &&& kind == "assignment_failed"@ ==> r.role == by && (r.wake <==> f.needs_review != Some(false))
            &&& kind == "assignment_undeliverable"@ ==> r.role == by && r.wake
            &&& kind == "assignment_noticed"@ ==> r.role == by && !r.wake
            &&& kind == "assignment_queued"@ ==> r.role == by && !r.wake
            &&& kind == "assignment_quota_blocked"@ ==> r.role == by && !r.wake
            &&& kind == "assignment_quota_resumed"@ ==> r.role == by && !r.wake
        }),
{
    kinds_apart();
    if review_role is Some {
        a_role_has_one_name(review_role->0);
    }
    if f.to_role is Some {
        a_role_has_one_name(f.to_role->0);
    }
    assert(kind == "assignment_noticed"@ ==> only_records(kind));
    assert(kind == "assignment_queued"@ ==> only_records(kind));
    assert(kind == "assignment_quota_blocked"@ ==> only_records(kind));
    assert(kind == "assignment_quota_resumed"@ ==> only_records(kind));
    reveal_strlit("bot_request");
    reveal_strlit("assignment_completed");
    reveal_strlit("assignment_failed");
    reveal_strlit("assignment_undeliverable");
    assert("bot_request"@.len() == 11 && "assignment_completed"@.len() == 20);
    assert("assignment_failed"@.len() == 17 && "assignment_undeliverable"@.len() == 24);
}

/// Approvals, missions and the fall of patrol go to the responder, faults of the system to patrol, and
/// all of them wake. A notification that ran out of tries is told to the responder instead. The end of
/// a fault wakes nobody, and a change of health wakes patrol unless everybody is healthy.
pub proof fn faults_are_reported_to_patrol_and_bots_to_the_responder(
    kind: Seq<char>,
    f: RouteFactsView,
    review_role: Option<Seq<char>>,
)
    ensures
        ({
            let r = routed(kind, f, review_role);
            let about_notifying = f.incident_kind == Some("notify_exhausted"@);
            &&& (kind == "approval_requested"@ || kind == "mission_created"@ || kind == "mission_question"@ || kind
                == "mission_answered"@ || kind == "mission_resumed"@ || kind == "mission_identity_switch"@ || kind
                == "mission_paused"@ || kind == "mission_cancelled"@ || kind == "watchdog_gave_up"@) ==> r.role
                == Role::Responder && r.wake
            &&& (kind == "responder_watchdog_gave_up"@ || kind == "responder_bot_missing"@ || kind == "bot_restart_failed"@
                || kind == "supervisor_restart_retry"@ || kind == "agm_cli_stale"@ || kind == "pane_unowned"@ || kind
                == "pane_orphaned"@ || kind == "ops_alert"@) ==> r.role == Role::Patrol && r.wake
            &&& kind == "incident_opened"@ ==> r.wake && (r.role == Role::Responder <==> about_notifying)
            &&& kind == "incident_resolved"@ ==> !r.wake && (r.role == Role::Responder <==> about_notifying)
            &&& kind == "health_changed"@ ==> r.role == Role::Patrol && (r.wake <==> f.manager_status != Some("healthy"@) || (
            f.responder_status is Some && f.responder_status != Some("healthy"@)))
        }),
{
    kinds_apart();
    kinds_further_apart();
    assert(kind == "incident_opened"@ ==> for_patrol(kind) && !for_the_responder(kind) && !only_records(kind));
    let theirs = kind == "approval_requested"@ || kind == "mission_created"@ || kind == "mission_question"@ || kind
        == "mission_answered"@ || kind == "mission_resumed"@ || kind == "mission_identity_switch"@ || kind
        == "mission_paused"@ || kind == "mission_cancelled"@ || kind == "watchdog_gave_up"@;
    assert(theirs ==> for_the_responder(kind));
    let ours = kind == "responder_watchdog_gave_up"@ || kind == "responder_bot_missing"@ || kind == "bot_restart_failed"@
        || kind == "supervisor_restart_retry"@ || kind == "agm_cli_stale"@ || kind == "pane_unowned"@ || kind
        == "pane_orphaned"@ || kind == "ops_alert"@;
    assert(ours ==> for_patrol(kind) && !for_the_responder(kind));
}

/// A kind of event that nobody foresaw goes to patrol and wakes it, and has no branch of its own.
pub proof fn an_unforeseen_event_wakes_patrol(kind: Seq<char>, f: RouteFactsView, review_role: Option<Seq<char>>)
    requires
        kind != "bot_request"@,
        kind != "assignment_completed"@,
        kind != "assignment_failed"@,
        kind != "assignment_undeliverable"@,
        kind != "assignment_noticed"@,
        kind != "assignment_queued"@,
        kind != "assignment_quota_blocked"@,
        kind != "assignment_quota_resumed"@,
        kind != "approval_requested"@,
        kind != "mission_created"@,
        kind != "mission_question"@,
        kind != "mission_answered"@,
        kind != "mission_resumed"@,
        kind != "mission_identity_switch"@,
        kind != "mission_paused"@,
        kind != "mission_cancelled"@,
        kind != "watchdog_gave_up"@,
        kind != "responder_watchdog_gave_up"@,
        kind != "responder_bot_missing"@,
        kind != "bot_restart_failed"@,
        kind != "supervisor_restart_retry"@,
        kind != "agm_cli_stale"@,
        kind != "pane_unowned"@,
        kind != "pane_orphaned"@,
        kind != "ops_alert"@,
        kind != "incident_opened"@,
        kind != "incident_resolved"@,
        kind != "health_changed"@,
    ensures
        routing(kind, f, review_role) is None,
        routed(kind, f, review_role).role == Role::Patrol,
        routed(kind, f, review_role).wake,
{
}

/// The responder counts as set up once its row names a bot, alive or not; its bot is only told
/// something while it is there. A bot has the role whose row names it, patrol's first.
pub proof fn a_bot_has_the_role_whose_row_names_it(s: StoreView, now: Seq<char>, bots: Seq<BotEntryView>, bot_id: Seq<char>, k: int)
    requires
        0 <= k < s.roles.len(),
        s.roles[k].role == "responder"@,
        forall|j: int| 0 <= j < k ==> (#[trigger] s.roles[j]).role != "responder"@,
    ensures
        role_row(s.roles, Role::Responder, now) == s.roles[k],
        registered(s, Role::Responder) == s.roles[k].bot_id,
        s.supervisor is None ==> registered(s, Role::Patrol) is None,
        s.supervisor is Some ==> registered(s, Role::Patrol) == s.supervisor->0.bot_id,
        live_responder(s, now, bots) == Some(bot_id) <==> s.roles[k].bot_id == Some(bot_id) && exists|j: int|
            0 <= j < bots.len() && (#[trigger] bots[j]).id == bot_id && bots[j].live,
        supervisor::role_of(s, bot_id) == Some(Role::Patrol) <==> s.supervisor is Some && s.supervisor->0.bot_id == Some(
            bot_id,
        ),
        supervisor::role_of(s, bot_id) == Some(Role::Responder) <==> s.roles[k].bot_id == Some(bot_id) && !(s.supervisor
            is Some && s.supervisor->0.bot_id == Some(bot_id)),
{
    let hit = of_role(Role::Responder);
    assert(hit(s.roles[k]));
    assert forall|j: int| 0 <= j < k implies !hit(#[trigger] s.roles[j]) by {
        assert(s.roles[j].role != "responder"@);
    }
    table::first_at(s.roles, hit, k);
    let live = supervisor::live_bot(bot_id);
    if table::any(bots, live) {
        let j = choose|j: int| 0 <= j < bots.len() && live(#[trigger] bots[j]);
        assert(bots[j].id == bot_id);
    } else {
        assert forall|j: int| 0 <= j < bots.len() implies !live(#[trigger] bots[j]) by {}
    }
}

proof fn kinds_further_apart()
    ensures
        "health_changed"@ != "bot_request"@,
        "health_changed"@ != "assignment_completed"@,
        "health_changed"@ != "assignment_failed"@,
        "health_changed"@ != "assignment_undeliverable"@,
        "health_changed"@ != "incident_opened"@,
        "health_changed"@ != "incident_resolved"@,
        !only_records("health_changed"@),
        !for_the_responder("health_changed"@),
        !for_patrol("health_changed"@),
        "bot_restart_failed"@ != "incident_opened"@,
        "supervisor_restart_retry"@ != "incident_opened"@,
        "agm_cli_stale"@ != "incident_opened"@,
        "pane_unowned"@ != "incident_opened"@,
        "pane_orphaned"@ != "incident_opened"@,
        "ops_alert"@ != "incident_opened"@,
{
    reveal_strlit("health_changed");
    assert("health_changed"@.len() == 14 && "health_changed"@[0] == 'h');
    reveal_strlit("bot_request");
    reveal_strlit("assignment_completed");
    reveal_strlit("assignment_failed");
    reveal_strlit("assignment_undeliverable");
    reveal_strlit("incident_opened");
    reveal_strlit("incident_resolved");
    reveal_strlit("assignment_noticed");
    reveal_strlit("assignment_queued");
    reveal_strlit("assignment_quota_blocked");
    reveal_strlit("assignment_quota_resumed");
    reveal_strlit("approval_requested");
    reveal_strlit("mission_created");
    reveal_strlit("mission_question");
    reveal_strlit("mission_answered");
    reveal_strlit("mission_resumed");
    reveal_strlit("mission_identity_switch");
    reveal_strlit("mission_paused");
    reveal_strlit("mission_cancelled");
    reveal_strlit("watchdog_gave_up");
    reveal_strlit("responder_watchdog_gave_up");
    reveal_strlit("responder_bot_missing");
    reveal_strlit("bot_restart_failed");
    reveal_strlit("supervisor_restart_retry");
    reveal_strlit("agm_cli_stale");
    reveal_strlit("pane_unowned");
    reveal_strlit("pane_orphaned");
    reveal_strlit("ops_alert");
    assert("bot_request"@[0] == 'b' && "assignment_completed"@[0] == 'a' && "assignment_failed"@[0] == 'a');
    assert("assignment_undeliverable"@[0] == 'a' && "incident_opened"@[0] == 'i' && "incident_resolved"@[0] == 'i');
    assert("assignment_noticed"@[0] == 'a' && "assignment_queued"@[0] == 'a' && "assignment_quota_blocked"@[0] == 'a');
    assert("assignment_quota_resumed"@[0] == 'a' && "approval_requested"@[0] == 'a' && "mission_created"@[0] == 'm');
    assert("mission_question"@[0] == 'm' && "mission_answered"@[0] == 'm' && "mission_resumed"@[0] == 'm');
    assert("mission_identity_switch"@[0] == 'm' && "mission_paused"@[0] == 'm' && "mission_cancelled"@[0] == 'm');
    assert("watchdog_gave_up"@[0] == 'w' && "responder_watchdog_gave_up"@[0] == 'r' && "responder_bot_missing"@[0] == 'r');
    assert("bot_restart_failed"@[0] == 'b' && "supervisor_restart_retry"@[0] == 's' && "agm_cli_stale"@[0] == 'a');
    assert("pane_unowned"@[0] == 'p' && "pane_orphaned"@[0] == 'p' && "ops_alert"@[0] == 'o');
}

proof fn kinds_apart()
    ensures
        forall|k: Seq<char>|
            #[trigger] for_the_responder(k) ==> k != "bot_request"@ && k != "assignment_completed"@ && k
                != "assignment_failed"@ && k != "assignment_undeliverable"@ && !only_records(k) && k != "incident_opened"@
                && k != "incident_resolved"@ && !for_patrol(k),
        forall|k: Seq<char>|
            #[trigger] only_records(k) ==> k != "bot_request"@ && k != "assignment_completed"@ && k
                != "assignment_failed"@ && k != "assignment_undeliverable"@,
        forall|k: Seq<char>|
            #[trigger] for_patrol(k) ==> k != "bot_request"@ && k != "assignment_completed"@ && k != "assignment_failed"@
                && k != "assignment_undeliverable"@ && !only_records(k) && k != "incident_resolved"@,
        !for_patrol("incident_resolved"@),
        !for_the_responder("incident_resolved"@),
        !only_records("incident_resolved"@),
        "incident_resolved"@ != "incident_opened"@,
        "incident_resolved"@ != "bot_request"@,
        "incident_resolved"@ != "assignment_completed"@,
        "incident_resolved"@ != "assignment_failed"@,
        "incident_resolved"@ != "assignment_undeliverable"@,
        "responder_watchdog_gave_up"@ != "incident_opened"@,
        "responder_bot_missing"@ != "incident_opened"@,
{
    reveal_strlit("bot_request");
    reveal_strlit("assignment_completed");
    reveal_strlit("assignment_failed");
    reveal_strlit("assignment_undeliverable");
    reveal_strlit("assignment_noticed");
    reveal_strlit("assignment_queued");
    reveal_strlit("assignment_quota_blocked");
    reveal_strlit("assignment_quota_resumed");
    reveal_strlit("approval_requested");
    reveal_strlit("mission_created");
    reveal_strlit("mission_question");
    reveal_strlit("mission_answered");
    reveal_strlit("mission_resumed");
    reveal_strlit("mission_identity_switch");
    reveal_strlit("mission_paused");
    reveal_strlit("mission_cancelled");
    reveal_strlit("watchdog_gave_up");
    reveal_strlit("incident_opened");
    reveal_strlit("responder_watchdog_gave_up");
    reveal_strlit("responder_bot_missing");
    reveal_strlit("bot_restart_failed");
    reveal_strlit("supervisor_restart_retry");
    reveal_strlit("agm_cli_stale");
    reveal_strlit("pane_unowned");
    reveal_strlit("pane_orphaned");
    reveal_strlit("ops_alert");
    assert("ops_alert"@.len() == 9);
    reveal_strlit("incident_resolved");
    assert("bot_request"@.len() == 11);
    assert("assignment_completed"@.len() == 20);
    assert("assignment_failed"@.len() == 17);
    assert("assignment_undeliverable"@.len() == 24);
    assert("assignment_noticed"@.len() == 18);
    assert("assignment_queued"@.len() == 17);
    assert("assignment_quota_blocked"@.len() == 24);
    assert("assignment_quota_resumed"@.len() == 24);
    assert("approval_requested"@.len() == 18);
    assert("mission_created"@.len() == 15);
    assert("mission_question"@.len() == 16);
    assert("mission_answered"@.len() == 16);
    assert("mission_resumed"@.len() == 15);
    assert("mission_identity_switch"@.len() == 23);
    assert("mission_paused"@.len() == 14);
    assert("mission_cancelled"@.len() == 17);
    assert("watchdog_gave_up"@.len() == 16);
    assert("incident_opened"@.len() == 15);
    assert("responder_watchdog_gave_up"@.len() == 26);
    assert("responder_bot_missing"@.len() == 21);
    assert("bot_restart_failed"@.len() == 18);
    assert("supervisor_restart_retry"@.len() == 24);
    assert("agm_cli_stale"@.len() == 13);
    assert("pane_unowned"@.len() == 12);
    assert("pane_orphaned"@.len() == 13);
    assert("incident_resolved"@.len() == 17);
    assert("agm_cli_stale"@[0] == 'a');
    assert("approval_requested"@[0] == 'a');
    assert("approval_requested"@[1] == 'p');
    assert("assignment_failed"@[0] == 'a');
    assert("assignment_failed"@[11] == 'f');
    assert("assignment_noticed"@[0] == 'a');
    assert("assignment_noticed"@[1] == 's');
    assert("assignment_queued"@[0] == 'a');
    assert("assignment_queued"@[11] == 'q');
    assert("assignment_quota_blocked"@[0] == 'a');
    assert("assignment_quota_blocked"@[11] == 'q');
    assert("assignment_quota_blocked"@[17] == 'b');
    assert("assignment_quota_resumed"@[0] == 'a');
    assert("assignment_quota_resumed"@[11] == 'q');
    assert("assignment_quota_resumed"@[17] == 'r');
    assert("assignment_undeliverable"@[0] == 'a');
    assert("assignment_undeliverable"@[11] == 'u');
    assert("bot_restart_failed"@[0] == 'b');
    assert("incident_opened"@[0] == 'i');
    assert("incident_resolved"@[0] == 'i');
    assert("mission_answered"@[0] == 'm');
    assert("mission_answered"@[8] == 'a');
    assert("mission_cancelled"@[0] == 'm');
    assert("mission_created"@[0] == 'm');
    assert("mission_created"@[8] == 'c');
    assert("mission_question"@[0] == 'm');
    assert("mission_question"@[8] == 'q');
    assert("mission_resumed"@[0] == 'm');
    assert("mission_resumed"@[8] == 'r');
    assert("pane_orphaned"@[0] == 'p');
    assert("supervisor_restart_retry"@[0] == 's');
    assert("watchdog_gave_up"@[0] == 'w');
}

/// The responder is set up once there is a bot on its row.
pub proof fn a_bot_on_the_row_is_a_responder_set_up(s: StoreView, now: Seq<char>, k: int)
    requires
        0 <= k < s.roles.len(),
        s.roles[k].role == "responder"@,
        forall|j: int| 0 <= j < k ==> (#[trigger] s.roles[j]).role != "responder"@,
    ensures
        responder_is_set_up(s, now) <==> s.roles[k].bot_id is Some,
{
    let hit = of_role(Role::Responder);
    assert(hit(s.roles[k]));
    assert forall|j: int| 0 <= j < k implies !hit(#[trigger] s.roles[j]) by {
        assert(s.roles[j].role != "responder"@);
    }
    table::first_at(s.roles, hit, k);
}

} // verus!
