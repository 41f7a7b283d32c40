//! Bringing the manager back when it dies.
//!
//! Only a manager that is wanted, and not waiting for quota, is restarted: a stop the user asked for
//! stays stopped. The count of failures lives in the row, so neither a second loop nor a restart of
//! the daemon begins it anew.
use crate::inbox;
use crate::json;
use crate::json::Field;
use crate::rows::{Supervisor, SupervisorView};
use crate::store;
use crate::store::{Store, StoreView};
use crate::table;
use crate::text;
use crate::time;
use crate::time::Instant;
use vstd::prelude::*;

verus! {

/// Seconds between one failed start and the next; flat after the fourth.
pub const BACKOFF_SECS: [u64; 4] = [30, 60, 120, 300];

/// Consecutive failed automatic starts before the watchdog reports and stops.
pub const MAX_ATTEMPTS: i64 = 5;

/// The wait after a number of failures.
pub open spec fn backoff(failures: int) -> u64 {
    if failures <= 0 {
        30
    } else if failures == 1 {
        60
    } else if failures == 2 {
        120
    } else {
        300
    }
}

pub fn backoff_secs(failures: i64) -> (r: u64)
    ensures
        r == backoff(failures as int),
{
    if failures <= 0 {
        BACKOFF_SECS[0]
    } else if failures >= 3 {
        BACKOFF_SECS[3]
    } else if failures == 1 {
        BACKOFF_SECS[1]
    } else {
        BACKOFF_SECS[2]
    }
}

/// The wait never gets shorter as failures add up, and stays between half a minute and five minutes.
pub proof fn the_backoff_only_grows(a: int, b: int)
    requires
        a <= b,
    ensures
        backoff(a) <= backoff(b),
        30 <= backoff(a) <= 300,
{
}

#[derive(Debug, Clone, Copy, PartialEq, Eq, Structural)]
pub enum Plan {
    /// Nothing to do: not wanted, not stopped, or waiting for quota.
    Idle,
    /// Stopped and wanted, but the backoff has not run out. `schedule` is that the next attempt still
    /// has to be written down.
    Wait { schedule: bool },
    /// The backoff ran out: start it now.
    Start,
    /// Too many failures in a row: no further retries until a human starts it.
    GaveUp,
}

/// What the watchdog looks at, of either role.
#[derive(Debug, Clone, Copy)]
pub struct Watched<'a> {
    pub configured: bool,
    pub wanted: bool,
    pub waiting_quota: bool,
    pub attempts: i64,
    pub next_at: Option<&'a str>,
}

/// The manager is down and ought to be up.
pub open spec fn is_outage(configured: bool, wanted: bool, waiting_quota: bool, liveness: Seq<char>) -> bool {
    configured && wanted && !waiting_quota && liveness == "stopped"@
}

/// Whether what is to be done depends on the time of the next attempt.
pub open spec fn is_asked(outage: bool, attempts: int, scheduled: bool) -> bool {
    outage && attempts < 5 && scheduled
}

/// What is to be done: `due` is that the time of the next attempt has come.
pub open spec fn planned(outage: bool, attempts: int, scheduled: bool, due: bool) -> Plan {
    if !outage {
        Plan::Idle
    } else if attempts >= 5 {
        Plan::GaveUp
    } else if !scheduled {
        Plan::Wait { schedule: true }
    } else if due {
        Plan::Start
    } else {
        Plan::Wait { schedule: false }
    }
}

/// What is to be done, as `now_past` says whether the time of the next attempt has come. It is asked
/// only where the answer matters.
pub fn plan_for<F: Fn(&str) -> bool>(w: Watched<'_>, liveness: &str, now_past: F) -> (r: Plan)
    requires
        is_asked(
            is_outage(w.configured, w.wanted, w.waiting_quota, liveness@),
            w.attempts as int,
            w.next_at is Some,
        ) ==> now_past.requires((w.next_at->0,)),
    ensures
        ({
            let outage = is_outage(w.configured, w.wanted, w.waiting_quota, liveness@);
            if is_asked(outage, w.attempts as int, w.next_at is Some) {
                exists|due: bool|
                    #[trigger] now_past.ensures((w.next_at->0,), due) && r == planned(outage, w.attempts as int, true, due)
            } else {
                r == planned(outage, w.attempts as int, w.next_at is Some, false)
            }
        }),
{
    if !w.configured || !w.wanted || w.waiting_quota {
        return Plan::Idle;
    }
    if !text::same(liveness, "stopped") {
        return Plan::Idle;
    }
    if w.attempts >= MAX_ATTEMPTS {
        return Plan::GaveUp;
    }
    match w.next_at {
        None => Plan::Wait { schedule: true },
        Some(t) => {
            let due = now_past(t);
            if due {
                Plan::Start
            } else {
                Plan::Wait { schedule: false }
            }
        },
    }
}

/// What is to be done about the manager. `liveness` is `stopped`, `starting`, `busy` or `idle`.
pub fn plan<F: Fn(&str) -> bool>(sup: &Supervisor, liveness: &str, now_past: F) -> (r: Plan)
    requires
        is_asked(
            is_outage(sup@.bot_id is Some, sup@.desired_running != 0, sup@.status == "waiting_quota"@, liveness@),
            sup@.watchdog_attempts as int,
            sup@.watchdog_next_at is Some,
        ) ==> forall|t: &str| t@ == sup@.watchdog_next_at->0 ==> #[trigger] now_past.requires((t,)),
    ensures
        ({
            let outage = is_outage(
                sup@.bot_id is Some,
                sup@.desired_running != 0,
                sup@.status == "waiting_quota"@,
                liveness@,
            );
            if is_asked(outage, sup@.watchdog_attempts as int, sup@.watchdog_next_at is Some) {
                exists|due: bool, t: &str|
                    #[trigger] now_past.ensures((t,), due) && t@ == sup@.watchdog_next_at->0 && r == planned(
                        outage,
                        sup@.watchdog_attempts as int,
                        true,
                        due,
                    )
            } else {
                r == planned(outage, sup@.watchdog_attempts as int, sup@.watchdog_next_at is Some, false)
            }
        }),
{
    plan_for(
        Watched {
            configured: sup.bot_id.is_some(),
            wanted: sup.wants_running(),
            waiting_quota: text::same(sup.status.as_str(), "waiting_quota"),
            attempts: sup.watchdog_attempts,
            next_at: text::borrowed(&sup.watchdog_next_at),
        },
        liveness,
        now_past,
    )
}

/// What is to be done at a moment.
pub open spec fn plan_of(
    configured: bool,
    wanted: bool,
    waiting_quota: bool,
    attempts: i64,
    next_at: Option<Seq<char>>,
    liveness: Seq<char>,
    now: Instant,
) -> Plan {
    planned(
        is_outage(configured, wanted, waiting_quota, liveness),
        attempts as int,
        next_at is Some,
        next_at is Some && time::passed(next_at->0, now),
    )
}

/// What is to be done about the manager at a moment.
pub open spec fn manager_plan(r: SupervisorView, liveness: Seq<char>, now: Instant) -> Plan {
    plan_of(
        r.bot_id is Some,
        r.desired_running != 0,
        r.status == "waiting_quota"@,
        r.watchdog_attempts,
        r.watchdog_next_at,
        liveness,
        now,
    )
}

/// What is to be done about something that is watched, at a moment.
pub fn plan_at(w: Watched<'_>, liveness: &str, now: Instant) -> (r: Plan)
    ensures
        r == plan_of(w.configured, w.wanted, w.waiting_quota, w.attempts, text::arg(w.next_at), liveness@, now),
{
    plan_for(w, liveness, |t: &str| -> (due: bool)
        ensures due == time::passed(t@, now)
        { time::past(t, now) })
}

fn manager_plan_at(sup: &Supervisor, liveness: &str, now: Instant) -> (r: Plan)
    ensures
        r == manager_plan(sup@, liveness@, now),
{
    plan_at(
        Watched {
            configured: sup.bot_id.is_some(),
            wanted: sup.wants_running(),
            waiting_quota: text::same(sup.status.as_str(), "waiting_quota"),
            attempts: sup.watchdog_attempts,
            next_at: text::borrowed(&sup.watchdog_next_at),
        },
        liveness,
        now,
    )
}

// ---------------------------------------------------------------- reporting

/// A moment at which deadlines a few minutes ahead can still be written down.
pub open spec fn has_room(now: Instant) -> bool {
    now.valid() && now.secs + 300 <= 8_210_266_876_799
}

/// The manager answers prompts: the streak of failures is over.
pub open spec fn answers(liveness: Seq<char>) -> bool {
    liveness == "idle"@ || liveness == "busy"@
}

pub(crate) fn is_answering(liveness: &str) -> (r: bool)
    ensures
        r == answers(liveness@),
{
    text::same(liveness, "idle") || text::same(liveness, "busy")
}

/// The row after the watchdog wrote down its count.
pub open spec fn counted(attempts: i64, next_at: Option<Seq<char>>, now: Seq<char>) -> spec_fn(SupervisorView) -> SupervisorView {
    |r: SupervisorView|
        (SupervisorView {
            watchdog_attempts: attempts,
            watchdog_next_at: next_at,
            watchdog_gave_up_at: if attempts == 0 {
                None
            } else {
                r.watchdog_gave_up_at
            },
            watchdog_last_error: if attempts == 0 {
                None
            } else {
                r.watchdog_last_error
            },
            updated_at: now,
            ..r
        })
}

/// The row with another detail.
pub open spec fn detailed(detail: Seq<char>, now: Seq<char>) -> spec_fn(SupervisorView) -> SupervisorView {
    |r: SupervisorView| (SupervisorView { status_detail: Some(detail), updated_at: now, ..r })
}

/// Why the watchdog gave up, where no start ever failed outright.
pub open spec fn died_each_time() -> Seq<char> {
    "自動啟動 5 次後仍未持續存活（最後一次啟動有回 Ok，但 CLI 隨即結束）"@
}

/// The row once the watchdog has given up: said the first time, kept afterwards.
pub open spec fn marked(why: Seq<char>, now: Seq<char>) -> spec_fn(SupervisorView) -> SupervisorView {
    |r: SupervisorView|
        if r.watchdog_gave_up_at is None {
            SupervisorView { watchdog_gave_up_at: Some(now), watchdog_last_error: Some(why), updated_at: now, ..r }
        } else {
            r
        }
}

/// The payload of the report that the watchdog gave up.
pub open spec fn gave_up_payload(why: Seq<char>, at: Seq<char>) -> Seq<char> {
    json::json_object(
        seq![
            ("attempts"@, json::FieldView::Int(5)),
            ("why"@, json::FieldView::Str(why)),
            ("gave_up_at"@, json::FieldView::Str(at)),
            (
                "action"@,
                json::FieldView::Str("手動 `bin/agm supervisor-start`；自動重試不會再發生，直到有人重新啟動它"@),
            ),
        ],
    )
}

/// The event that reports a give-up. Its key is the moment on record, so there is one event per
/// episode, however often it is reported.
pub open spec fn gave_up_event(event_id: Seq<char>, why: Seq<char>, at: Seq<char>, now: Seq<char>) -> crate::rows::InboxEventView {
    inbox::fresh_event(
        event_id,
        "watchdog:gave_up:"@ + at,
        "watchdog_gave_up"@,
        None,
        None,
        None,
        gave_up_payload(why, at),
        now,
    )
}

/// What is shown once the watchdog has given up.
pub open spec fn gave_up_detail(why: Seq<char>) -> Seq<char> {
    "watchdog 連續 5 次自動啟動後仍沒有活著，已停止重試；請手動 supervisor-start。原因："@ + why
}

/// The store after a give-up was reported: marked, told once, and shown with the report that was new.
pub open spec fn reported(s: StoreView, event_id: Seq<char>, why: Seq<char>, now: Seq<char>) -> StoreView {
    let m = store::with_supervisor(s, marked(why, now));
    match m.supervisor {
        None => StoreView { supervisor: Some(store::fresh_supervisor(now)), ..m },
        Some(r) => {
            let event = gave_up_event(event_id, why, r.watchdog_gave_up_at->0, now);
            if table::any(m.inbox, inbox::known_event(event.id, event.event_key)) {
                m
            } else {
                store::with_supervisor(StoreView { inbox: m.inbox.push(event), ..m }, detailed(gave_up_detail(why), now))
            }
        },
    }
}

/// Something was written into the inbox.
pub open spec fn is_news(before: StoreView, after: StoreView) -> bool {
    after.inbox.len() > before.inbox.len()
}

/// Say durably that the watchdog has stopped trying. True is that this call said it.
///
/// Every tick that finds the manager given up comes here, so a report that could not be written is
/// written by a later one.
pub fn report_gave_up(s: &mut Store, now: &str, event_id: &str, why: &str) -> (told: bool)
    ensures
        final(s)@ == reported(old(s)@, event_id@, why@, now@),
        told == is_news(old(s)@, final(s)@),
{
    let _ = store::mark_watchdog_gave_up(s, now, why);
    assert(s@ == store::with_supervisor(old(s)@, marked(why@, now@)));
    let at = match store::get_or_init(s, now).watchdog_gave_up_at {
        None => {
            return false;
        },
        Some(t) => t,
    };
    let fields = [
        ("attempts", Field::Int(MAX_ATTEMPTS)),
        ("why", Field::Str(why)),
        ("gave_up_at", Field::Str(at.as_str())),
        ("action", Field::Str("手動 `bin/agm supervisor-start`；自動重試不會再發生，直到有人重新啟動它")),
    ];
    let payload = json::object(&fields);
    assert(json::members(fields@) =~= seq![
        ("attempts"@, json::FieldView::Int(5)),
        ("why"@, json::FieldView::Str(why@)),
        ("gave_up_at"@, json::FieldView::Str(at@)),
        ("action"@, json::FieldView::Str("手動 `bin/agm supervisor-start`；自動重試不會再發生，直到有人重新啟動它"@)),
    ]);
    let key = text::joined("watchdog:gave_up:", at.as_str());
    let pushed = inbox::push_inbox(
        s,
        now,
        event_id,
        key.as_str(),
        "watchdog_gave_up",
        None,
        None,
        None,
        payload.as_str(),
    );
    if pushed.is_none() {
        return false;
    }
    let detail = text::joined("watchdog 連續 5 次自動啟動後仍沒有活著，已停止重試；請手動 supervisor-start。原因：", why);
    store::set_status_detail(s, now, Some(detail.as_str()));
    true
}

// ---------------------------------------------------------------- one tick

/// What is left for the caller to do after a tick.
#[derive(Debug, Clone, Copy, PartialEq, Eq, Structural)]
pub enum Step {
    Nothing,
    /// Start the manager, as this attempt, and say how it went.
    Start { attempt: i64 },
    /// The watchdog has given up; `told` is that this tick reported it.
    GaveUp { told: bool },
}

/// The store after a tick. The row of the manager is made on the first one.
pub open spec fn ticked(s: StoreView, event_id: Seq<char>, liveness: Seq<char>, now: Instant) -> StoreView {
    let iso = time::iso_millis(now);
    match s.supervisor {
        None => StoreView { supervisor: Some(store::fresh_supervisor(iso)), ..s },
        Some(r) => if r.bot_id is None {
            s
        } else {
            match manager_plan(r, liveness, now) {
                Plan::Idle => if answers(liveness) && (r.watchdog_attempts > 0 || r.watchdog_next_at is Some) {
                    store::with_supervisor(s, counted(0, None, iso))
                } else {
                    s
                },
                Plan::Wait { schedule } => if schedule {
                    store::with_supervisor(
                        s,
                        counted(
                            r.watchdog_attempts,
                            Some(time::iso_millis(now.plus(backoff(r.watchdog_attempts as int) as int))),
                            iso,
                        ),
                    )
                } else {
                    s
                },
                Plan::Start => s,
                Plan::GaveUp => reported(
                    s,
                    event_id,
                    match r.watchdog_last_error {
                        Some(e) => e,
                        None => died_each_time(),
                    },
                    iso,
                ),
            }
        },
    }
}

/// What is left to do after a tick; `told` is that the tick reported something.
pub open spec fn next_step(s: StoreView, liveness: Seq<char>, now: Instant, told: bool) -> Step {
    match s.supervisor {
        None => Step::Nothing,
        Some(r) => if r.bot_id is None {
            Step::Nothing
        } else {
            match manager_plan(r, liveness, now) {
                Plan::Start => Step::Start { attempt: table::bumped(r.watchdog_attempts) },
                Plan::GaveUp => Step::GaveUp { told },
                _ => Step::Nothing,
            }
        },
    }
}

/// One tick's worth of watching.
pub fn tick(s: &mut Store, now: Instant, event_id: &str, liveness: &str) -> (step: Step)
    requires
        has_room(now),
    ensures
        final(s)@ == ticked(old(s)@, event_id@, liveness@, now),
        step == next_step(old(s)@, liveness@, now, is_news(old(s)@, final(s)@)),
{
    let iso = time::iso(now);
    let row = store::get_or_init(s, iso.as_str());
    if row.bot_id.is_none() {
        return Step::Nothing;
    }
    match manager_plan_at(&row, liveness, now) {
        Plan::Idle => {
            if is_answering(liveness) && (row.watchdog_attempts > 0 || row.watchdog_next_at.is_some()) {
                store::set_watchdog(s, iso.as_str(), 0, None);
            }
            Step::Nothing
        },
        Plan::Wait { schedule } => {
            if schedule {
                let next = time::iso(now.later(backoff_secs(row.watchdog_attempts)));
                store::set_watchdog(s, iso.as_str(), row.watchdog_attempts, Some(next.as_str()));
            }
            Step::Nothing
        },
        Plan::Start => Step::Start { attempt: table::bump(row.watchdog_attempts) },
        Plan::GaveUp => {
            let why = match &row.watchdog_last_error {
                Some(e) => e.clone(),
                None => "自動啟動 5 次後仍未持續存活（最後一次啟動有回 Ok，但 CLI 隨即結束）".to_owned(),
            };
            let told = report_gave_up(s, iso.as_str(), event_id, why.as_str());
            Step::GaveUp { told }
        },
    }
}

/// The manager is to be started now.
pub open spec fn due_for_start(s: StoreView, liveness: Seq<char>, now: Instant) -> bool {
    s.supervisor matches Some(row) && manager_plan(row, liveness, now) == Plan::Start
}

/// A start that was decided on is still to be made: asked again when nobody else can interfere.
pub fn still_due(s: &Store, liveness: &str, now: Instant) -> (r: bool)
    ensures
        r == due_for_start(s@, liveness@, now),
{
    match &s.supervisor {
        Some(row) => manager_plan_at(row, liveness, now) == Plan::Start,
        None => false,
    }
}

/// The detail shown while an attempt is being made.
pub open spec fn attempt_detail(attempt: int) -> Seq<char> {
    "watchdog 自動重新啟動（第 "@ + text::decimal(attempt) + " 次）"@
}

pub fn starting_detail(attempt: i64) -> (r: String)
    ensures
        r@ == attempt_detail(attempt as int),
{
    let n = text::signed(attempt);
    text::joined(text::joined("watchdog 自動重新啟動（第 ", n.as_str()).as_str(), " 次）")
}

/// The store after a start went through.
pub open spec fn begun(s: StoreView, attempt: i64, now: Instant) -> StoreView {
    store::with_supervisor(
        s,
        counted(attempt, Some(time::iso_millis(now.plus(backoff(attempt as int) as int))), time::iso_millis(now)),
    )
}

/// The start went through. It still counts as an attempt until the manager is seen answering.
pub fn started(s: &mut Store, now: Instant, attempt: i64)
    requires
        has_room(now),
    ensures
        final(s)@ == begun(old(s)@, attempt, now),
{
    let iso = time::iso(now);
    let next = time::iso(now.later(backoff_secs(attempt)));
    store::set_watchdog(s, iso.as_str(), attempt, Some(next.as_str()));
}

/// The store after a start failed: counted, and either scheduled again or given up.
pub open spec fn failed(s: StoreView, event_id: Seq<char>, attempt: i64, why: Seq<char>, now: Instant) -> StoreView {
    let iso = time::iso_millis(now);
    if attempt >= 5 {
        reported(store::with_supervisor(s, counted(attempt, None, iso)), event_id, why, iso)
    } else {
        store::with_supervisor(
            store::with_supervisor(
                s,
                counted(attempt, Some(time::iso_millis(now.plus(backoff(attempt as int) as int))), iso),
            ),
            detailed("watchdog 自動啟動失敗（第 "@ + text::decimal(attempt as int) + " 次）："@ + why, iso),
        )
    }
}

/// The start failed.
pub fn start_failed(s: &mut Store, now: Instant, event_id: &str, attempt: i64, why: &str) -> (told: bool)
    requires
        has_room(now),
    ensures
        final(s)@ == failed(old(s)@, event_id@, attempt, why@, now),
        told == is_news(old(s)@, final(s)@),
{
    let iso = time::iso(now);
    if attempt >= MAX_ATTEMPTS {
        store::set_watchdog(s, iso.as_str(), attempt, None);
        report_gave_up(s, iso.as_str(), event_id, why)
    } else {
        let next = time::iso(now.later(backoff_secs(attempt)));
        store::set_watchdog(s, iso.as_str(), attempt, Some(next.as_str()));
        let n = text::signed(attempt);
        let mut d = text::joined("watchdog 自動啟動失敗（第 ", n.as_str());
        d = text::joined(d.as_str(), " 次）：");
        d = text::joined(d.as_str(), why);
        store::set_status_detail(s, iso.as_str(), Some(d.as_str()));
        false
    }
}

// ---------------------------------------------------------------- laws

/// The watchdog starts only what is wanted, set up, down, and not waiting for quota, and only up to
/// the limit.
pub proof fn only_an_outage_is_started(r: SupervisorView, liveness: Seq<char>, now: Instant)
    ensures
        manager_plan(r, liveness, now) == Plan::Start ==> {
            &&& r.bot_id is Some
            &&& r.desired_running != 0
            &&& r.status != "waiting_quota"@
            &&& liveness == "stopped"@
            &&& r.watchdog_attempts < 5
            &&& r.watchdog_next_at is Some
        },
        r.desired_running == 0 ==> manager_plan(r, liveness, now) == Plan::Idle,
        r.status == "waiting_quota"@ ==> manager_plan(r, liveness, now) == Plan::Idle,
        liveness != "stopped"@ ==> manager_plan(r, liveness, now) == Plan::Idle,
{
}

/// Giving up is for good until somebody does something: at the limit every tick of an outage gives
/// up, whatever the clock says.
pub proof fn at_the_limit_nothing_is_started(r: SupervisorView, liveness: Seq<char>, now: Instant)
    requires
        r.watchdog_attempts >= 5,
    ensures
        manager_plan(r, liveness, now) == Plan::Idle || manager_plan(r, liveness, now) == Plan::GaveUp,
{
}

/// A give-up is told once: reporting it again, for whatever reason and at whatever time, changes
/// nothing. The id of the report is taken to be fresh.
pub proof fn a_give_up_is_told_once(
    s: StoreView,
    id: Seq<char>,
    why: Seq<char>,
    now: Seq<char>,
    id2: Seq<char>,
    why2: Seq<char>,
    later: Seq<char>,
)
    requires
        s.supervisor is Some,
        forall|i: int| 0 <= i < s.inbox.len() ==> (#[trigger] s.inbox[i]).id != id,
    ensures
        reported(reported(s, id, why, now), id2, why2, later) == reported(s, id, why, now),
{
    let m = store::with_supervisor(s, marked(why, now));
    let at = m.supervisor->0.watchdog_gave_up_at->0;
    let event = gave_up_event(id, why, at, now);
    let one = reported(s, id, why, now);
    assert(one.supervisor->0.watchdog_gave_up_at == Some(at));
    let again = gave_up_event(id2, why2, at, later);
    let hit = inbox::known_event(again.id, again.event_key);
    if table::any(m.inbox, inbox::known_event(event.id, event.event_key)) {
        let i = choose|i: int|
            0 <= i < m.inbox.len() && (inbox::known_event(event.id, event.event_key))(#[trigger] m.inbox[i]);
        assert(s.inbox[i].id != id);
        assert(hit(one.inbox[i]));
    } else {
        assert(hit(one.inbox[s.inbox.len() as int]));
    }
    assert(store::with_supervisor(one, marked(why2, later)) =~= one);
}

/// A manager that is seen answering again ends the streak and clears the record of giving up, so a
/// later outage is reported as a new one.
pub proof fn recovery_rearms_the_watchdog(s: StoreView, event_id: Seq<char>, liveness: Seq<char>, now: Instant)
    requires
        s.supervisor is Some,
        s.supervisor->0.bot_id is Some,
        answers(liveness),
        s.supervisor->0.watchdog_attempts > 0,
    ensures
        ({
            let r = ticked(s, event_id, liveness, now).supervisor->0;
            r.watchdog_attempts == 0 && r.watchdog_next_at is None && r.watchdog_gave_up_at is None
        }),
{
    reveal_strlit("idle");
    reveal_strlit("busy");
    reveal_strlit("stopped");
    assert("idle"@.len() == 4 && "busy"@.len() == 4 && "stopped"@.len() == 7);
}

/// After a failed start that is not the last, the manager is tried again when the wait is over, and not a
/// moment earlier: half a minute after no failure, then one minute, two, and five from the third on.
/// Nobody is told yet.
pub proof fn a_failed_start_is_tried_again_after_the_wait(
    s: StoreView,
    event_id: Seq<char>,
    attempt: i64,
    why: Seq<char>,
    now: Instant,
    moment: Instant,
)
    requires
        s.supervisor is Some,
        attempt < 5,
        now.valid(),
        now.secs + 300 <= 8_210_266_876_799,
    ensures
        ({
            let wait: int = if attempt <= 0 {
                30
            } else if attempt == 1 {
                60
            } else if attempt == 2 {
                120
            } else {
                300
            };
            let due = Instant { secs: (now.secs + wait) as i64, nanos: (now.nanos as int % 1_000_000_000) as u32 };
            let was = s.supervisor->0;
            let after = failed(s, event_id, attempt, why, now);
            let r = after.supervisor->0;
            &&& after.supervisor is Some
            &&& after == (StoreView { supervisor: after.supervisor, ..s })
            &&& r == (SupervisorView {
                watchdog_attempts: attempt,
                watchdog_next_at: Some(time::iso_millis(due)),
                watchdog_gave_up_at: r.watchdog_gave_up_at,
                watchdog_last_error: r.watchdog_last_error,
                status_detail: Some("watchdog 自動啟動失敗（第 "@ + text::decimal(attempt as int) + " 次）："@ + why),
                updated_at: time::iso_millis(now),
                ..was
            })
            &&& attempt != 0 ==> r.watchdog_gave_up_at == was.watchdog_gave_up_at && r.watchdog_last_error
                == was.watchdog_last_error
            &&& (was.bot_id is Some && was.desired_running != 0 && was.status != "waiting_quota"@) ==> (time::rfc3339(
                time::iso_millis(due),
            ) matches Some(t) ==> manager_plan(r, "stopped"@, moment) == if moment.secs < t.secs || (moment.secs == t.secs
                && moment.nanos < t.nanos) {
                Plan::Wait { schedule: false }
            } else {
                Plan::Start
            })
        }),
{
}

/// A start that went through counts like one that failed, until the manager is seen answering: the next
/// one waits as long.
pub proof fn a_start_that_went_through_waits_too(s: StoreView, event_id: Seq<char>, attempt: i64, why: Seq<char>, now: Instant)
    requires
        s.supervisor is Some,
        now.valid(),
        now.secs + 300 <= 8_210_266_876_799,
    ensures
        ({
            let wait: int = if attempt <= 0 {
                30
            } else if attempt == 1 {
                60
            } else if attempt == 2 {
                120
            } else {
                300
            };
            let due = Instant { secs: (now.secs + wait) as i64, nanos: (now.nanos as int % 1_000_000_000) as u32 };
            let after = begun(s, attempt, now);
            let r = after.supervisor->0;
            &&& after.supervisor is Some
            &&& after == (StoreView { supervisor: after.supervisor, ..s })
            &&& r == (SupervisorView {
                watchdog_attempts: attempt,
                watchdog_next_at: Some(time::iso_millis(due)),
                watchdog_gave_up_at: r.watchdog_gave_up_at,
                watchdog_last_error: r.watchdog_last_error,
                updated_at: time::iso_millis(now),
                ..s.supervisor->0
            })
            &&& attempt != 0 ==> r.watchdog_gave_up_at == s.supervisor->0.watchdog_gave_up_at && r.watchdog_last_error
                == s.supervisor->0.watchdog_last_error
            &&& attempt < 5 ==> r.watchdog_next_at == failed(s, event_id, attempt, why, now).supervisor->0.watchdog_next_at
        }),
{
}

/// The fifth failure in a row ends the retries: nothing is scheduled, the moment and the reason are on
/// record, every later look at the outage finds that the watchdog gave up, and there is one report under
/// the key of that moment.
pub proof fn the_fifth_failure_is_the_last(
    s: StoreView,
    event_id: Seq<char>,
    attempt: i64,
    why: Seq<char>,
    now: Instant,
    moment: Instant,
)
    requires
        s.supervisor is Some,
        attempt >= 5,
    ensures
        ({
            let iso = time::iso_millis(now);
            let was = s.supervisor->0;
            let after = failed(s, event_id, attempt, why, now);
            let r = after.supervisor->0;
            let first = was.watchdog_gave_up_at is None;
            let key = "watchdog:gave_up:"@ + r.watchdog_gave_up_at->0;
            let known = exists|i: int|
                0 <= i < s.inbox.len() && ((#[trigger] s.inbox[i]).event_key == key || s.inbox[i].id == event_id);
            &&& after.supervisor is Some
            &&& after == (StoreView { supervisor: after.supervisor, inbox: after.inbox, ..s })
            &&& r.watchdog_attempts == attempt
            &&& r.watchdog_next_at is None
            &&& first ==> r.watchdog_gave_up_at == Some(iso) && r.watchdog_last_error == Some(why)
            &&& !first ==> r.watchdog_gave_up_at == was.watchdog_gave_up_at && r.watchdog_last_error
                == was.watchdog_last_error
            &&& r.bot_id == was.bot_id && r.desired_running == was.desired_running && r.status == was.status
            &&& (was.bot_id is Some && was.desired_running != 0 && was.status != "waiting_quota"@) ==> manager_plan(
                r,
                "stopped"@,
                moment,
            ) == Plan::GaveUp
            &&& known ==> after.inbox == s.inbox
            &&& !known ==> {
                &&& after.inbox.len() == s.inbox.len() + 1
                &&& after.inbox.drop_last() == s.inbox
                &&& after.inbox.last().id == event_id
                &&& after.inbox.last().event_key == key
                &&& after.inbox.last().kind == "watchdog_gave_up"@
                &&& after.inbox.last().state == "pending"@
                &&& after.inbox.last().created_at == iso
                &&& r.status_detail
                    == Some("watchdog 連續 5 次自動啟動後仍沒有活著，已停止重試；請手動 supervisor-start。原因："@ + why)
            }
        }),
{
    let iso = time::iso_millis(now);
    let after = failed(s, event_id, attempt, why, now);
    let at = after.supervisor->0.watchdog_gave_up_at->0;
    let key = "watchdog:gave_up:"@ + at;
    let hit = inbox::known_event(event_id, key);
    if table::any(s.inbox, hit) {
        let i = choose|i: int| 0 <= i < s.inbox.len() && hit(#[trigger] s.inbox[i]);
        assert(s.inbox[i].event_key == key || s.inbox[i].id == event_id);
    } else {
        assert forall|i: int| 0 <= i < s.inbox.len() implies !((#[trigger] s.inbox[i]).event_key == key || s.inbox[i].id
            == event_id) by {
            assert(!hit(s.inbox[i]));
        }
        assert(after.inbox.drop_last() =~= s.inbox);
    }
}

/// A tick starts the manager exactly when it is set up, wanted, not waiting for quota, down, has failed
/// fewer than five times and its next attempt has come; the start is counted as one more attempt, and
/// writes nothing by itself.
pub proof fn a_tick_starts_exactly_what_is_due(s: StoreView, event_id: Seq<char>, liveness: Seq<char>, now: Instant, told: bool)
    ensures
        ({
            let step = next_step(s, liveness, now, told);
            let r = s.supervisor->0;
            let down = s.supervisor is Some && r.bot_id is Some && r.desired_running != 0 && r.status != "waiting_quota"@
                && liveness == "stopped"@;
            let due = match r.watchdog_next_at {
                Some(t) => match time::rfc3339(t) {
                    Some(x) => x.secs < now.secs || (x.secs == now.secs && x.nanos <= now.nanos),
                    None => true,
                },
                None => false,
            };
            &&& step is Start <==> down && r.watchdog_attempts < 5 && due
            &&& step matches Step::Start { attempt } ==> attempt == r.watchdog_attempts + 1 && ticked(
                s,
                event_id,
                liveness,
                now,
            ) == s
            &&& step is GaveUp <==> down && r.watchdog_attempts >= 5
            &&& step matches Step::GaveUp { told: t } ==> t == told
            &&& down && r.watchdog_attempts < 5 && r.watchdog_next_at is Some && !due ==> ticked(
                s,
                event_id,
                liveness,
                now,
            ) == s
        }),
{
}

/// An outage that is seen for the first time is not acted on at once: the next attempt is written down,
/// a wait ahead that goes with the failures so far, and nothing else changes.
pub proof fn an_outage_is_given_time_first(s: StoreView, event_id: Seq<char>, now: Instant, moment: Instant)
    requires
        s.supervisor is Some,
        s.supervisor->0.bot_id is Some,
        s.supervisor->0.desired_running != 0,
        s.supervisor->0.status != "waiting_quota"@,
        s.supervisor->0.watchdog_attempts < 5,
        s.supervisor->0.watchdog_next_at is None,
        now.valid(),
        now.secs + 300 <= 8_210_266_876_799,
    ensures
        ({
            let was = s.supervisor->0;
            let n = was.watchdog_attempts;
            let wait: int = if n <= 0 {
                30
            } else if n == 1 {
                60
            } else if n == 2 {
                120
            } else {
                300
            };
            let due = Instant { secs: (now.secs + wait) as i64, nanos: (now.nanos as int % 1_000_000_000) as u32 };
            let after = ticked(s, event_id, "stopped"@, now);
            let r = after.supervisor->0;
            &&& next_step(s, "stopped"@, now, false) == Step::Nothing
            &&& after.supervisor is Some
            &&& after == (StoreView { supervisor: after.supervisor, ..s })
            &&& r.watchdog_attempts == n
            &&& r.watchdog_next_at == Some(time::iso_millis(due))
            &&& r.bot_id == was.bot_id && r.desired_running == was.desired_running && r.status == was.status
            &&& time::rfc3339(time::iso_millis(due)) matches Some(t) ==> manager_plan(r, "stopped"@, moment)
                == if moment.secs < t.secs || (moment.secs == t.secs && moment.nanos < t.nanos) {
                Plan::Wait { schedule: false }
            } else {
                Plan::Start
            }
        }),
{
}

/// A manager that answers has its count cleared, whatever was scheduled; while nothing was counted a tick
/// of one that is not down writes nothing.
pub proof fn only_an_answer_clears_the_count(s: StoreView, event_id: Seq<char>, liveness: Seq<char>, now: Instant)
    requires
        s.supervisor is Some,
        s.supervisor->0.bot_id is Some,
        liveness != "stopped"@,
    ensures
        ({
            let was = s.supervisor->0;
            let after = ticked(s, event_id, liveness, now);
            let counted_before = was.watchdog_attempts > 0 || was.watchdog_next_at is Some;
            &&& (liveness == "idle"@ || liveness == "busy"@) && counted_before ==> after == (StoreView {
                supervisor: Some(
                    SupervisorView {
                        watchdog_attempts: 0,
                        watchdog_next_at: None,
                        watchdog_gave_up_at: None,
                        watchdog_last_error: None,
                        updated_at: time::iso_millis(now),
                        ..was
                    },
                ),
                ..s
            })
            &&& !((liveness == "idle"@ || liveness == "busy"@) && counted_before) ==> after == s
        }),
{
}

/// Where there is no manager, a tick does nothing but make its row.
pub proof fn nobody_is_started_before_setup(s: StoreView, event_id: Seq<char>, liveness: Seq<char>, now: Instant, told: bool)
    requires
        s.supervisor is None || s.supervisor->0.bot_id is None,
    ensures
        next_step(s, liveness, now, told) == Step::Nothing,
        s.supervisor is Some ==> ticked(s, event_id, liveness, now) == s,
        s.supervisor is None ==> {
            let after = ticked(s, event_id, liveness, now);
            &&& after == (StoreView { supervisor: after.supervisor, ..s })
            &&& after.supervisor is Some
            &&& after.supervisor->0.bot_id is None
            &&& after.supervisor->0.desired_running == 0
            &&& after.supervisor->0.watchdog_attempts == 0
        },
{
}

/// A start is still to be made exactly while the manager is set up, wanted, not waiting for quota, down, has
/// failed fewer than five times, and its next attempt has come; a time that cannot be read has come.
pub proof fn a_start_is_made_only_while_it_is_due(s: StoreView, liveness: Seq<char>, now: Instant)
    ensures
        ({
            let r = s.supervisor->0;
            let come = match r.watchdog_next_at {
                Some(t) => match time::rfc3339(t) {
                    Some(x) => x.secs < now.secs || (x.secs == now.secs && x.nanos <= now.nanos),
                    None => true,
                },
                None => false,
            };
            due_for_start(s, liveness, now) <==> s.supervisor is Some && r.bot_id is Some && r.desired_running != 0 && r.status
                != "waiting_quota"@ && liveness == "stopped"@ && r.watchdog_attempts < 5 && come
        }),
{
}

/// A give-up is written on the row of the manager with its reason, shown, and told in an event that names
/// the reason and the moment on record; the moment is the first one, and the key of the event goes by it.
pub proof fn a_give_up_is_written_in_full(s: StoreView, event_id: Seq<char>, why: Seq<char>, now: Seq<char>)
    requires
        s.supervisor is Some,
        ({
            let at = if s.supervisor->0.watchdog_gave_up_at is Some {
                s.supervisor->0.watchdog_gave_up_at->0
            } else {
                now
            };
            forall|i: int|
                0 <= i < s.inbox.len() ==> (#[trigger] s.inbox[i]).id != event_id && s.inbox[i].event_key != "watchdog:gave_up:"@
                    + at
        }),
    ensures
        ({
            let was = s.supervisor->0;
            let at = if was.watchdog_gave_up_at is Some {
                was.watchdog_gave_up_at->0
            } else {
                now
            };
            let after = reported(s, event_id, why, now);
            let e = after.inbox.last();
            &&& after == (StoreView { supervisor: after.supervisor, inbox: after.inbox, ..s })
            &&& after.supervisor == Some(
                SupervisorView {
                    watchdog_gave_up_at: Some(at),
                    watchdog_last_error: if was.watchdog_gave_up_at is Some {
                        was.watchdog_last_error
                    } else {
                        Some(why)
                    },
                    status_detail: Some(
                        "watchdog 連續 5 次自動啟動後仍沒有活著，已停止重試；請手動 supervisor-start。原因："@ + why,
                    ),
                    updated_at: now,
                    ..was
                },
            )
            &&& after.inbox == s.inbox.push(e)
            &&& e.id == event_id && e.event_key == "watchdog:gave_up:"@ + at && e.kind == "watchdog_gave_up"@ && e.state
                == "pending"@ && e.created_at == now && e.bot_id is None && e.assignment_id is None && e.turn_id is None
            &&& exists|m: Seq<(Seq<char>, json::FieldView)>|
                e.payload_json == #[trigger] json::json_object(m) && m.contains(("why"@, json::FieldView::Str(why))) && m.contains(
                    ("gave_up_at"@, json::FieldView::Str(at)),
                ) && m.contains(("attempts"@, json::FieldView::Int(5)))
        }),
{
    let was = s.supervisor->0;
    let at = if was.watchdog_gave_up_at is Some {
        was.watchdog_gave_up_at->0
    } else {
        now
    };
    let known = inbox::known_event(event_id, "watchdog:gave_up:"@ + at);
    assert forall|i: int| 0 <= i < s.inbox.len() implies !known(#[trigger] s.inbox[i]) by {}
    let m = seq![
        ("attempts"@, json::FieldView::Int(5)),
        ("why"@, json::FieldView::Str(why)),
        ("gave_up_at"@, json::FieldView::Str(at)),
        ("action"@, json::FieldView::Str("手動 `bin/agm supervisor-start`；自動重試不會再發生，直到有人重新啟動它"@)),
    ];
    assert(m[0].0 == "attempts"@ && m[1].0 == "why"@ && m[2].0 == "gave_up_at"@);
    assert(reported(s, event_id, why, now).inbox.last().payload_json == json::json_object(m));
}

/// What is watched is let alone unless it is set up, wanted, not waiting for quota and down. Then five failures
/// are the end; before that, without a next attempt one is scheduled, and with one it is waited for and made.
pub proof fn what_is_planned(
    configured: bool,
    wanted: bool,
    waiting_quota: bool,
    attempts: i64,
    next_at: Option<Seq<char>>,
    liveness: Seq<char>,
    now: Instant,
)
    ensures
        ({
            let p = plan_of(configured, wanted, waiting_quota, attempts, next_at, liveness, now);
            let down = configured && wanted && !waiting_quota && liveness == "stopped"@;
            let come = next_at is Some && match time::rfc3339(next_at->0) {
                Some(x) => x.secs < now.secs || (x.secs == now.secs && x.nanos <= now.nanos),
                None => true,
            };
            &&& p is Idle <==> !down
            &&& p is GaveUp <==> down && attempts >= 5
            &&& p == (Plan::Wait { schedule: true }) <==> down && attempts < 5 && next_at is None
            &&& p == (Plan::Wait { schedule: false }) <==> down && attempts < 5 && next_at is Some && !come
            &&& p is Start <==> down && attempts < 5 && come
        }),
{
}

/// The same of a plan whose clock somebody else reads; the clock is asked only where it matters.
pub proof fn what_is_planned_by_another_clock(
    configured: bool,
    wanted: bool,
    waiting_quota: bool,
    liveness: Seq<char>,
    attempts: int,
    scheduled: bool,
    due: bool,
)
    ensures
        ({
            let outage = is_outage(configured, wanted, waiting_quota, liveness);
            let p = planned(outage, attempts, scheduled, due);
            let down = configured && wanted && !waiting_quota && liveness == "stopped"@;
            &&& is_asked(outage, attempts, scheduled) <==> down && attempts < 5 && scheduled
            &&& p is Idle <==> !down
            &&& p is GaveUp <==> down && attempts >= 5
            &&& p == (Plan::Wait { schedule: true }) <==> down && attempts < 5 && !scheduled
            &&& p == (Plan::Wait { schedule: false }) <==> down && attempts < 5 && scheduled && !due
            &&& p is Start <==> down && attempts < 5 && scheduled && due
        }),
{
}

/// A report of a give-up tells something exactly when there is a row of the manager and no event with this id,
/// or with the key of this give-up, is in the inbox yet.
pub proof fn a_report_tells_what_is_new(s: StoreView, event_id: Seq<char>, why: Seq<char>, now: Seq<char>)
    ensures
        ({
            let at = if s.supervisor->0.watchdog_gave_up_at is Some {
                s.supervisor->0.watchdog_gave_up_at->0
            } else {
                now
            };
            is_news(s, reported(s, event_id, why, now)) <==> s.supervisor is Some && forall|i: int|
                0 <= i < s.inbox.len() ==> (#[trigger] s.inbox[i]).id != event_id && s.inbox[i].event_key != "watchdog:gave_up:"@
                    + at
        }),
{
    let at = if s.supervisor->0.watchdog_gave_up_at is Some {
        s.supervisor->0.watchdog_gave_up_at->0
    } else {
        now
    };
    let known = inbox::known_event(event_id, "watchdog:gave_up:"@ + at);
    if table::any(s.inbox, known) {
        let i = choose|i: int| 0 <= i < s.inbox.len() && known(#[trigger] s.inbox[i]);
        assert(s.inbox[i].id == event_id || s.inbox[i].event_key == "watchdog:gave_up:"@ + at);
    } else {
        assert forall|i: int| 0 <= i < s.inbox.len() implies (#[trigger] s.inbox[i]).id != event_id && s.inbox[i].event_key
            != "watchdog:gave_up:"@ + at by {
            assert(!known(s.inbox[i]));
        }
    }
}

} // verus!
