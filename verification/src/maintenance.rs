//! Windows for rebuilding and restarting: who may take one, and when it is safe to.
//!
//! Asking whether it is safe promises nothing about the next second. Taking the window asks again and
//! takes the lease in one step. While a restart lease is held, no new work goes into any pane.
use crate::approvals;
use crate::assignments;
use crate::json;
use crate::json::Field;
use crate::leases;
use crate::leases::{LeaseProof, Traffic, TrafficView};
use crate::refusal::{Refusal, RefusalView};
use crate::render;
use crate::rows::{Approval, ApprovalView, Assignment, AssignmentView, Lease, LeaseView};
use crate::store;
use crate::store::{Store, StoreView};
use crate::supervisor;
use crate::table;
use crate::table::Row;
use crate::text;
use crate::time;
use crate::time::Instant;
use vstd::prelude::*;

verus! {

/// What a lease can be taken on. A typo must not make a private lock that protects nothing.
pub const RESOURCES: [&'static str; 2] = ["rebuild", "restart"];

/// Holding one of these stops new work everywhere. A rebuild interrupts nobody; a restart does.
pub const EXCLUSIVE: [&'static str; 1] = ["restart"];

/// Minutes that an approval waits before the check narrows to what would really be lost.
pub const ESCALATE_AFTER_MINS: i64 = 30;

/// The variable that overrides the minutes above.
pub const ESCALATE_ENV: &'static str = "AM_MAINTENANCE_ESCALATE_MINS";

/// Default and longest life of a lease, in seconds.
pub const DEFAULT_TTL_SECS: i64 = 900;

pub const MAX_TTL_SECS: i64 = 3600;

/// Seconds after which to ask again where the state of a window could not be read.
pub const UNREADABLE_RETRY_SECS: i64 = 10;

/// The resource exists.
pub open spec fn known_resource(r: Seq<char>) -> bool {
    r == "rebuild"@ || r == "restart"@
}

/// A lease on the resource keeps everybody else out of the panes.
pub open spec fn exclusive(r: Seq<char>) -> bool {
    r == "restart"@
}

fn is_known_resource(r: &str) -> (b: bool)
    ensures
        b == known_resource(r@),
{
    text::same(r, RESOURCES[0]) || text::same(r, RESOURCES[1])
}

fn is_exclusive(r: &str) -> (b: bool)
    ensures
        b == exclusive(r@),
{
    text::same(r, EXCLUSIVE[0])
}

// ---------------------------------------------------------------- waiting

/// The minutes that a setting asks for: a positive number, or thirty.
pub open spec fn escalate_mins(raw: Option<Seq<char>>) -> i64 {
    match raw {
        Some(v) => match text::integer_64(text::trimmed(v)) {
            Some(m) => if m > 0 {
                m
            } else {
                30
            },
            None => 30,
        },
        None => 30,
    }
}

/// Zero, a negative number or anything unreadable is as if nothing were set: a slip in the
/// environment must not open the window at once.
pub fn parse_escalate_mins(raw: Option<&str>) -> (r: i64)
    ensures
        r == escalate_mins(text::arg(raw)),
        r > 0,
{
    match raw {
        Some(v) => match text::parse_i64(text::trim(v)) {
            Some(m) => if m > 0 {
                m
            } else {
                ESCALATE_AFTER_MINS
            },
            None => ESCALATE_AFTER_MINS,
        },
        None => ESCALATE_AFTER_MINS,
    }
}

/// The threshold in seconds, as a setting has it.
pub open spec fn threshold_of(raw: Option<Seq<char>>) -> int {
    escalate_mins(raw) * 60
}

/// The threshold in seconds, as the setting `raw` has it.
pub fn escalate_after_secs(raw: Option<&str>) -> (r: i64)
    requires
        escalate_mins(text::arg(raw)) * 60 <= i64::MAX,
    ensures
        r == threshold_of(text::arg(raw)),
{
    parse_escalate_mins(raw) * 60
}

/// Whole seconds from one timestamp to a later one; nothing where they cannot be read.
pub open spec fn waited(since: Seq<char>, now: Seq<char>) -> i64 {
    match (time::rfc3339(since), time::rfc3339(now)) {
        (Some(a), Some(b)) => {
            let n = time::whole_seconds(a, b);
            if n > 0 {
                n
            } else {
                0
            }
        },
        _ => 0,
    }
}

/// An unreadable time counts as no wait: what is not known to have waited must not be let through.
pub fn waited_secs(since: &str, now: &str) -> (r: i64)
    ensures
        r == waited(since@, now@),
        r >= 0,
{
    match (time::parse_rfc3339(since), time::parse_rfc3339(now)) {
        (Some(a), Some(b)) => {
            let n: i64 = time::seconds_between(a, b);
            if n > 0 {
                n
            } else {
                0
            }
        },
        _ => 0,
    }
}

/// How long an approval that is still to be used has waited, and whether that is long enough.
#[derive(Debug)]
pub struct Escalation {
    pub approval_id: String,
    pub waited_secs: i64,
    pub escalated: bool,
}

/// What an `Escalation` holds.
#[verifier::ext_equal]
pub struct EscalationView {
    pub approval_id: Seq<char>,
    pub waited_secs: i64,
    pub escalated: bool,
}

impl View for Escalation {
    type V = EscalationView;

    open spec fn view(&self) -> EscalationView {
        EscalationView {
            approval_id: self.approval_id@,
            waited_secs: self.waited_secs,
            escalated: self.escalated,
        }
    }
}

/// The approval can still open a window.
pub open spec fn opens_a_window(a: ApprovalView, now: Seq<char>) -> bool {
    a.status == "approved"@ && known_resource(a.purpose) && !approvals::lapsed(a, now)
}

/// The approval whose wait counts: the one that is named, or the one that has waited longest.
pub open spec fn waiting_approval(s: StoreView, approval_id: Option<Seq<char>>, now: Seq<char>) -> Option<ApprovalView> {
    match approval_id {
        Some(id) => match table::first(s.approvals, approvals::with_id(id)) {
            Some(a) => if opens_a_window(a, now) {
                Some(a)
            } else {
                None
            },
            None => None,
        },
        None => {
            let list = table::ordered(s.approvals.filter(approvals::live_window(now)), approvals::waits_longer());
            if list.len() > 0 {
                Some(list[0])
            } else {
                None
            }
        },
    }
}

/// How long the approval that counts has waited.
pub open spec fn escalation_of(
    s: StoreView,
    approval_id: Option<Seq<char>>,
    escalate_after_secs: i64,
    now: Seq<char>,
) -> Option<EscalationView> {
    match waiting_approval(s, approval_id, now) {
        Some(a) => match approvals::waiting(a) {
            Some(since) => Some(
                EscalationView {
                    approval_id: a.id,
                    waited_secs: waited(since, now),
                    escalated: waited(since, now) >= escalate_after_secs,
                },
            ),
            None => None,
        },
        None => None,
    }
}

/// Only the approval that is named counts: what somebody else left unused opens no door for it.
/// Without a name it is the one that has waited longest.
pub fn escalation_for(s: &Store, now: &str, approval_id: Option<&str>, escalate_after_secs: i64) -> (r: Option<Escalation>)
    ensures
        table::opt_view(r) == escalation_of(s@, text::arg(approval_id), escalate_after_secs, now@),
        r matches Some(e) ==> e.waited_secs >= 0,
{
    let found: Option<Approval> = match approval_id {
        Some(id) => match approvals::approval(s, id) {
            Some(a) => {
                if text::same(a.status.as_str(), "approved") && is_known_resource(a.purpose.as_str()) && !a.is_lapsed(now) {
                    Some(a)
                } else {
                    None
                }
            },
            None => None,
        },
        None => approvals::oldest_live_window_approval(s, now),
    };
    match found {
        None => None,
        Some(a) => match a.waiting_since() {
            None => None,
            Some(since) => {
                let w: i64 = waited_secs(since, now);
                Some(Escalation { approval_id: a.id.clone(), waited_secs: w, escalated: w >= escalate_after_secs })
            },
        },
    }
}

pub fn escalation(s: &Store, now: &str, escalate_after_secs: i64) -> (r: Option<Escalation>)
    ensures
        table::opt_view(r) == escalation_of(s@, None, escalate_after_secs, now@),
{
    escalation_for(s, now, None, escalate_after_secs)
}

// ---------------------------------------------------------------- the fence

/// A window that is held, as those who are kept out are told of it.
#[derive(Debug)]
pub struct WindowHeld {
    pub resource: &'static str,
    pub owner: String,
    pub fence: i64,
    pub expires_at: String,
}

/// What a `WindowHeld` holds.
#[verifier::ext_equal]
pub struct WindowHeldView {
    pub resource: Seq<char>,
    pub owner: Seq<char>,
    pub fence: i64,
    pub expires_at: Seq<char>,
}

impl View for WindowHeld {
    type V = WindowHeldView;

    open spec fn view(&self) -> WindowHeldView {
        WindowHeldView {
            resource: self.resource@,
            owner: self.owner@,
            fence: self.fence,
            expires_at: self.expires_at@,
        }
    }
}

/// The state of a window could not be read. That is not the same as no window: whoever asks keeps
/// out.
#[derive(Debug)]
pub struct WindowUnreadable {
    pub resource: &'static str,
    pub error: String,
}

/// An answer that keeps a caller out. The detail is a JSON text.
#[derive(Debug)]
pub enum LcError {
    Conflict(String),
    Unavailable(String),
}

/// The words for those who are kept out of a window.
pub open spec fn held_message(w: WindowHeldView) -> Seq<char> {
    w.owner + " 正在進行維護（"@ + w.resource + " 窗口），到 "@ + w.expires_at
        + " 為止不送新的 prompt；窗口關閉或過期就自動恢復。"@
}

/// What those who are kept out of a window are told: who holds it, until when, and how long that is.
pub open spec fn held_members(w: WindowHeldView, now: Seq<char>) -> Seq<(Seq<char>, json::FieldView)> {
    seq![
        ("reason"@, json::FieldView::Str("maintenance_window"@)),
        ("resource"@, json::FieldView::Str(w.resource)),
        ("held_by"@, json::FieldView::Str(w.owner)),
        ("fence"@, json::FieldView::Int(w.fence)),
        ("expires_at"@, json::FieldView::Str(w.expires_at)),
        ("retry_after_secs"@, json::FieldView::Int(waited(now, w.expires_at))),
        ("retryable"@, json::FieldView::Bool(true)),
        ("sent"@, json::FieldView::Bool(false)),
        ("message"@, json::FieldView::Str(held_message(w))),
    ]
}

/// The JSON text of it.
pub open spec fn held_detail(w: WindowHeldView, now: Seq<char>) -> Seq<char> {
    json::json_object(held_members(w, now))
}

impl WindowHeld {
    pub fn detail(&self, now: &str) -> (r: String)
        ensures
            r@ == held_detail(self@, now@),
    {
        let mut m = text::joined(self.owner.as_str(), " 正在進行維護（");
        m = text::joined(m.as_str(), self.resource);
        m = text::joined(m.as_str(), " 窗口），到 ");
        m = text::joined(m.as_str(), self.expires_at.as_str());
        m = text::joined(m.as_str(), " 為止不送新的 prompt；窗口關閉或過期就自動恢復。");
        let fields = [
            ("reason", Field::Str("maintenance_window")),
            ("resource", Field::Str(self.resource)),
            ("held_by", Field::Str(self.owner.as_str())),
            ("fence", Field::Int(self.fence)),
            ("expires_at", Field::Str(self.expires_at.as_str())),
            ("retry_after_secs", Field::Int(self.retry_after_secs(now))),
            ("retryable", Field::Bool(true)),
            ("sent", Field::Bool(false)),
            ("message", Field::Str(m.as_str())),
        ];
        assert(json::members(fields@) =~= seq![
            ("reason"@, json::FieldView::Str("maintenance_window"@)),
            ("resource"@, json::FieldView::Str(self@.resource)),
            ("held_by"@, json::FieldView::Str(self@.owner)),
            ("fence"@, json::FieldView::Int(self@.fence)),
            ("expires_at"@, json::FieldView::Str(self@.expires_at)),
            ("retry_after_secs"@, json::FieldView::Int(waited(now@, self@.expires_at))),
            ("retryable"@, json::FieldView::Bool(true)),
            ("sent"@, json::FieldView::Bool(false)),
            ("message"@, json::FieldView::Str(held_message(self@))),
        ]);
        json::object(&fields)
    }

    /// Seconds until the window ends by itself; nothing where that cannot be read.
    pub fn retry_after_secs(&self, now: &str) -> (r: i64)
        ensures
            r == waited(now@, self@.expires_at),
            r >= 0,
    {
        waited_secs(now, self.expires_at.as_str())
    }

    pub fn refusal(&self, now: &str) -> (r: LcError)
        ensures
            r matches LcError::Conflict(d) && d@ == held_detail(self@, now@),
    {
        LcError::Conflict(self.detail(now))
    }
}

/// What those are told for whom the state of a window could not be read.
pub open spec fn unreadable_members(resource: Seq<char>) -> Seq<(Seq<char>, json::FieldView)> {
    seq![
        ("reason"@, json::FieldView::Str("maintenance_state_unavailable"@)),
        ("resource"@, json::FieldView::Str(resource)),
        ("retry_after_secs"@, json::FieldView::Int(10)),
        ("retryable"@, json::FieldView::Bool(true)),
        ("sent"@, json::FieldView::Bool(false)),
        (
            "message"@,
            json::FieldView::Str(
                "讀不到 "@ + resource + " 維護窗口的狀態，所以不送新的 prompt（不確定有沒有窗口）；稍後原樣重送即可。"@,
            ),
        ),
    ]
}

/// The JSON text of it.
pub open spec fn unreadable_detail(resource: Seq<char>) -> Seq<char> {
    json::json_object(unreadable_members(resource))
}

impl WindowUnreadable {
    pub fn detail(&self) -> (r: String)
        ensures
            r@ == unreadable_detail(self.resource@),
    {
        let m = text::joined(
            text::joined("讀不到 ", self.resource).as_str(),
            " 維護窗口的狀態，所以不送新的 prompt（不確定有沒有窗口）；稍後原樣重送即可。",
        );
        let fields = [
            ("reason", Field::Str("maintenance_state_unavailable")),
            ("resource", Field::Str(self.resource)),
            ("retry_after_secs", Field::Int(UNREADABLE_RETRY_SECS)),
            ("retryable", Field::Bool(true)),
            ("sent", Field::Bool(false)),
            ("message", Field::Str(m.as_str())),
        ];
        assert(json::members(fields@) =~= seq![
            ("reason"@, json::FieldView::Str("maintenance_state_unavailable"@)),
            ("resource"@, json::FieldView::Str(self.resource@)),
            ("retry_after_secs"@, json::FieldView::Int(10)),
            ("retryable"@, json::FieldView::Bool(true)),
            ("sent"@, json::FieldView::Bool(false)),
            (
                "message"@,
                json::FieldView::Str(
                    "讀不到 "@ + self.resource@ + " 維護窗口的狀態，所以不送新的 prompt（不確定有沒有窗口）；稍後原樣重送即可。"@,
                ),
            ),
        ]);
        json::object(&fields)
    }

    pub fn refusal(&self) -> (r: LcError)
        ensures
            r matches LcError::Unavailable(d) && d@ == unreadable_detail(self.resource@),
    {
        LcError::Unavailable(self.detail())
    }
}

/// What is known of a window.
pub enum WindowState {
    Free,
    Held(WindowHeldView),
    Unreadable,
}

/// A text, or an empty one.
pub open spec fn or_empty(o: Option<Seq<char>>) -> Seq<char> {
    match o {
        Some(t) => t,
        None => Seq::empty(),
    }
}

/// What is known of the restart window from its lease. One that is not released and has no readable
/// end cannot be taken for gone.
pub open spec fn window_of(lease: Option<LeaseView>, now: Seq<char>) -> WindowState {
    match lease {
        None => WindowState::Free,
        Some(l) => if l.released_at is None && (l.expires_at is None || time::rfc3339(l.expires_at->0) is None) {
            WindowState::Unreadable
        } else if leases::held(l, now) {
            WindowState::Held(
                WindowHeldView {
                    resource: "restart"@,
                    owner: or_empty(l.owner),
                    fence: l.fence,
                    expires_at: or_empty(l.expires_at),
                },
            )
        } else {
            WindowState::Free
        },
    }
}

/// What is known of the restart window.
pub open spec fn window(s: StoreView, now: Seq<char>) -> WindowState {
    window_of(table::first(s.leases, leases::on("restart"@)), now)
}

/// An answer about a window says what is known of it.
pub open spec fn answers(r: Result<Option<WindowHeld>, WindowUnreadable>, w: WindowState) -> bool {
    match w {
        WindowState::Free => r matches Ok(None),
        WindowState::Held(v) => r matches Ok(Some(h)) && h@ == v,
        WindowState::Unreadable => r matches Err(u) && u.resource@ == "restart"@,
    }
}

/// The text of an optional text as Rust's debug form has it.
pub open spec fn debug_text(o: Option<Seq<char>>) -> Seq<char> {
    match o {
        Some(t) => "Some("@ + text::quoted_text(t) + ")"@,
        None => "None"@,
    }
}

fn debug_form(o: &Option<String>) -> (r: String)
    ensures
        r@ == debug_text(text::opt(*o)),
{
    match o {
        Some(t) => text::joined(text::joined("Some(", text::quoted(t.as_str()).as_str()).as_str(), ")"),
        None => "None".to_owned(),
    }
}

fn text_or_empty(o: &Option<String>) -> (r: String)
    ensures
        r@ == or_empty(text::opt(*o)),
{
    match o {
        Some(t) => t.clone(),
        None => {
            let e = String::new();
            assert(e@ =~= Seq::<char>::empty());
            e
        },
    }
}

/// What a reading of the restart lease says of the window. A reading that failed is an unreadable
/// window, with what went wrong.
pub fn window_read(read: Result<Option<Lease>, String>, now: &str) -> (r: Result<Option<WindowHeld>, WindowUnreadable>)
    ensures
        match read {
            Ok(l) => {
                &&& answers(r, window_of(table::opt_view(l), now@))
                &&& r matches Err(u) ==> u.error@ == "lease is not released but its expires_at is unreadable: "@
                    + debug_text(l->0@.expires_at)
            },
            Err(e) => r matches Err(u) && u.resource@ == "restart"@ && u.error@ == e@,
        },
{
    let found = match read {
        Err(error) => {
            return Err(WindowUnreadable { resource: EXCLUSIVE[0], error });
        },
        Ok(l) => l,
    };
    let l = match found {
        None => {
            return Ok(None);
        },
        Some(l) => l,
    };
    let readable = match &l.expires_at {
        Some(t) => time::parse_rfc3339(t.as_str()).is_some(),
        None => false,
    };
    if l.released_at.is_none() && !readable {
        let error = text::joined(
            "lease is not released but its expires_at is unreadable: ",
            debug_form(&l.expires_at).as_str(),
        );
        return Err(WindowUnreadable { resource: EXCLUSIVE[0], error });
    }
    if l.held_at(now) {
        return Ok(
            Some(
                WindowHeld {
                    resource: EXCLUSIVE[0],
                    owner: text_or_empty(&l.owner),
                    fence: l.fence,
                    expires_at: text_or_empty(&l.expires_at),
                },
            ),
        );
    }
    Ok(None)
}

/// Whether somebody holds a window that interrupts panes. This is the one definition that every way
/// in reads: held keeps out, free lets in, unreadable keeps out.
pub fn window_held(s: &Store, now: &str) -> (r: Result<Option<WindowHeld>, WindowUnreadable>)
    ensures
        answers(r, window(s@, now@)),
{
    window_read(Ok(leases::lease(s, EXCLUSIVE[0])), now)
}

/// Until when dispatch is paused; `None` is that nobody can tell.
pub open spec fn paused_until(w: WindowState) -> Option<Option<Seq<char>>> {
    match w {
        WindowState::Free => Some(None),
        WindowState::Held(v) => Some(Some(v.expires_at)),
        WindowState::Unreadable => None,
    }
}

/// Until when dispatch is paused; `None` is that it is not.
pub fn dispatch_paused(s: &Store, now: &str) -> (r: Result<Option<String>, WindowUnreadable>)
    ensures
        match (window(s@, now@), r) {
            (w, Ok(until)) => paused_until(w) == Some(text::opt(until)),
            (w, Err(u)) => paused_until(w) is None && u.resource@ == "restart"@,
        },
{
    match window_held(s, now) {
        Ok(Some(w)) => Ok(Some(w.expires_at)),
        Ok(None) => Ok(None),
        Err(u) => Err(u),
    }
}

/// The note on an assignment that a window keeps queued.
pub open spec fn note_of_pause(until: Seq<char>) -> Seq<char> {
    "restart window held until "@ + until
}

/// The note on an assignment that a window keeps queued.
pub fn pause_note(until: &str) -> (r: String)
    ensures
        r@ == note_of_pause(until@),
{
    text::joined("restart window held until ", until)
}

/// The earlier of a deadline that was asked for and the end of the approval.
pub open spec fn deadline(requested: Seq<char>, approval_expires_at: Option<Seq<char>>) -> Seq<char> {
    match approval_expires_at {
        Some(exp) => if time::ts_before(exp, requested) {
            exp
        } else {
            requested
        },
        None => requested,
    }
}

/// A lease rests on a permission with a clock on it, and does not outlive it.
pub fn lease_deadline(requested: &str, approval_expires_at: Option<&str>) -> (r: String)
    ensures
        r@ == deadline(requested@, text::arg(approval_expires_at)),
{
    match approval_expires_at {
        Some(exp) => if time::is_earlier(exp, requested) {
            exp.to_owned()
        } else {
            requested.to_owned()
        },
        None => requested.to_owned(),
    }
}

// ---------------------------------------------------------------- what a restart would interrupt

/// What was read of a turn.
#[derive(Debug)]
pub enum TurnSeen {
    /// There is none.
    Quiet,
    At(String),
    /// The reading failed, which says nothing of the bot.
    Unreadable,
}

/// What a `TurnSeen` holds.
pub enum TurnSeenView {
    Quiet,
    At(Seq<char>),
    Unreadable,
}

impl View for TurnSeen {
    type V = TurnSeenView;

    open spec fn view(&self) -> TurnSeenView {
        match *self {
            TurnSeen::Quiet => TurnSeenView::Quiet,
            TurnSeen::At(t) => TurnSeenView::At(t@),
            TurnSeen::Unreadable => TurnSeenView::Unreadable,
        }
    }
}

/// What was read of the run of a bot.
#[derive(Debug)]
pub enum RunSeen {
    Stopped,
    Live { agent_status: String, in_flight: TurnSeen },
    Unreadable,
}

/// What a `RunSeen` holds.
pub enum RunSeenView {
    Stopped,
    Live { agent_status: Seq<char>, in_flight: TurnSeenView },
    Unreadable,
}

impl View for RunSeen {
    type V = RunSeenView;

    open spec fn view(&self) -> RunSeenView {
        match *self {
            RunSeen::Stopped => RunSeenView::Stopped,
            RunSeen::Live { agent_status, in_flight } => RunSeenView::Live {
                agent_status: agent_status@,
                in_flight: in_flight@,
            },
            RunSeen::Unreadable => RunSeenView::Unreadable,
        }
    }
}

/// What was read of one bot: the prompt that is being delivered to it, and its run.
#[derive(Debug)]
pub struct BotProbe {
    pub id: String,
    pub name: String,
    pub delivering: TurnSeen,
    pub run: RunSeen,
}

/// What a `BotProbe` holds.
#[verifier::ext_equal]
pub struct BotProbeView {
    pub id: Seq<char>,
    pub name: Seq<char>,
    pub delivering: TurnSeenView,
    pub run: RunSeenView,
}

impl View for BotProbe {
    type V = BotProbeView;

    open spec fn view(&self) -> BotProbeView {
        BotProbeView {
            id: self.id@,
            name: self.name@,
            delivering: self.delivering@,
            run: self.run@,
        }
    }
}

/// A bot in a list.
#[derive(Debug)]
pub struct BotName {
    pub bot_id: String,
    pub name: String,
}

/// What a `BotName` holds.
#[verifier::ext_equal]
pub struct BotNameView {
    pub bot_id: Seq<char>,
    pub name: Seq<char>,
}

impl View for BotName {
    type V = BotNameView;

    open spec fn view(&self) -> BotNameView {
        BotNameView {
            bot_id: self.bot_id@,
            name: self.name@,
        }
    }
}

/// A bot in a list, with a turn of it.
#[derive(Debug)]
pub struct BotTurn {
    pub bot_id: String,
    pub name: String,
    pub turn_id: String,
}

/// What a `BotTurn` holds.
#[verifier::ext_equal]
pub struct BotTurnView {
    pub bot_id: Seq<char>,
    pub name: Seq<char>,
    pub turn_id: Seq<char>,
}

impl View for BotTurn {
    type V = BotTurnView;

    open spec fn view(&self) -> BotTurnView {
        BotTurnView {
            bot_id: self.bot_id@,
            name: self.name@,
            turn_id: self.turn_id@,
        }
    }
}

/// A bot that is working.
#[derive(Debug)]
pub struct WorkingBot {
    pub bot_id: String,
    pub name: String,
    pub is_supervisor: bool,
}

/// What a `WorkingBot` holds.
#[verifier::ext_equal]
pub struct WorkingBotView {
    pub bot_id: Seq<char>,
    pub name: Seq<char>,
    pub is_supervisor: bool,
}

impl View for WorkingBot {
    type V = WorkingBotView;

    open spec fn view(&self) -> WorkingBotView {
        WorkingBotView {
            bot_id: self.bot_id@,
            name: self.name@,
            is_supervisor: self.is_supervisor,
        }
    }
}

/// A lease that is held; `own` is that the one who asks holds it.
#[derive(Debug)]
pub struct HeldLease {
    pub resource: String,
    pub owner: Option<String>,
    pub own: bool,
    pub fence: i64,
    pub expires_at: Option<String>,
}

/// What a `HeldLease` holds.
#[verifier::ext_equal]
pub struct HeldLeaseView {
    pub resource: Seq<char>,
    pub owner: Option<Seq<char>>,
    pub own: bool,
    pub fence: i64,
    pub expires_at: Option<Seq<char>>,
}

impl View for HeldLease {
    type V = HeldLeaseView;

    open spec fn view(&self) -> HeldLeaseView {
        HeldLeaseView {
            resource: self.resource@,
            owner: text::opt(self.owner),
            own: self.own,
            fence: self.fence,
            expires_at: text::opt(self.expires_at),
        }
    }
}

/// Whether a window is safe to take, and all that went into the answer.
#[derive(Debug)]
pub struct SafetyReport {
    pub safe: bool,
    pub escalated: bool,
    pub escalation: Option<Escalation>,
    pub escalate_after_secs: i64,
    pub delivering: Vec<BotTurn>,
    pub held_leases: Vec<HeldLease>,
    pub owner: Option<String>,
    pub working: Vec<WorkingBot>,
    pub in_flight: Vec<BotTurn>,
    pub unreadable: Vec<BotName>,
    pub blocked_waiting_for_user: Vec<BotName>,
    pub queued_assignments: usize,
    pub checked_at: String,
}

/// What a `SafetyReport` holds.
#[verifier::ext_equal]
pub struct SafetyReportView {
    pub safe: bool,
    pub escalated: bool,
    pub escalation: Option<EscalationView>,
    pub escalate_after_secs: i64,
    pub delivering: Seq<BotTurnView>,
    pub held_leases: Seq<HeldLeaseView>,
    pub owner: Option<Seq<char>>,
    pub working: Seq<WorkingBotView>,
    pub in_flight: Seq<BotTurnView>,
    pub unreadable: Seq<BotNameView>,
    pub blocked_waiting_for_user: Seq<BotNameView>,
    pub queued_assignments: usize,
    pub checked_at: Seq<char>,
}

impl View for SafetyReport {
    type V = SafetyReportView;

    open spec fn view(&self) -> SafetyReportView {
        SafetyReportView {
            safe: self.safe,
            escalated: self.escalated,
            escalation: table::opt_view(self.escalation),
            escalate_after_secs: self.escalate_after_secs,
            delivering: table::views(self.delivering@),
            held_leases: table::views(self.held_leases@),
            owner: text::opt(self.owner),
            working: table::views(self.working@),
            in_flight: table::views(self.in_flight@),
            unreadable: table::views(self.unreadable@),
            blocked_waiting_for_user: table::views(self.blocked_waiting_for_user@),
            queued_assignments: self.queued_assignments,
            checked_at: self.checked_at@,
        }
    }
}

/// What each bot adds to a list, one bot behind the other.
pub open spec fn gathered<E>(bots: Seq<BotProbeView>, f: spec_fn(BotProbeView) -> Seq<E>) -> Seq<E>
    decreases bots.len(),
{
    if bots.len() == 0 {
        Seq::empty()
    } else {
        gathered(bots.drop_last(), f) + f(bots.last())
    }
}

/// A list with one entry, where a condition holds.
pub open spec fn one_if<E>(b: bool, e: E) -> Seq<E> {
    if b {
        seq![e]
    } else {
        Seq::empty()
    }
}

pub open spec fn named(b: BotProbeView) -> BotNameView {
    BotNameView { bot_id: b.id, name: b.name }
}

pub open spec fn turn_of(b: BotProbeView, turn: TurnSeenView) -> BotTurnView {
    BotTurnView { bot_id: b.id, name: b.name, turn_id: turn->At_0 }
}

/// The turn in the run of a bot.
pub open spec fn run_turn(b: BotProbeView) -> TurnSeenView {
    match b.run {
        RunSeenView::Live { agent_status, in_flight } => in_flight,
        _ => TurnSeenView::Quiet,
    }
}

/// The bot is running, in this state.
pub open spec fn is_at(b: BotProbeView, status: Seq<char>) -> bool {
    b.run matches RunSeenView::Live { agent_status, in_flight } && agent_status == status
}

/// Bots that a prompt is being delivered to.
pub open spec fn delivering_in(exclude: Seq<Seq<char>>) -> spec_fn(BotProbeView) -> Seq<BotTurnView> {
    |b: BotProbeView| one_if(!exclude.contains(b.id) && b.delivering is At, turn_of(b, b.delivering))
}

/// Bots that could not be looked at: once for the delivery, once for the run.
pub open spec fn unreadable_in(exclude: Seq<Seq<char>>) -> spec_fn(BotProbeView) -> Seq<BotNameView> {
    |b: BotProbeView|
        one_if(!exclude.contains(b.id) && b.delivering is Unreadable, named(b)) + one_if(
            !exclude.contains(b.id) && (b.run is Unreadable || run_turn(b) is Unreadable),
            named(b),
        )
}

/// Bots that are working.
pub open spec fn working_in(exclude: Seq<Seq<char>>, supervisor: Option<Seq<char>>) -> spec_fn(BotProbeView) -> Seq<
    WorkingBotView,
> {
    |b: BotProbeView|
        one_if(
            !exclude.contains(b.id) && is_at(b, "working"@),
            WorkingBotView { bot_id: b.id, name: b.name, is_supervisor: supervisor == Some(b.id) },
        )
}

/// Bots that wait for a person.
pub open spec fn blocked_in(exclude: Seq<Seq<char>>) -> spec_fn(BotProbeView) -> Seq<BotNameView> {
    |b: BotProbeView| one_if(!exclude.contains(b.id) && is_at(b, "blocked"@), named(b))
}

/// Bots in the middle of a turn.
pub open spec fn in_flight_in(exclude: Seq<Seq<char>>) -> spec_fn(BotProbeView) -> Seq<BotTurnView> {
    |b: BotProbeView| one_if(!exclude.contains(b.id) && run_turn(b) is At, turn_of(b, run_turn(b)))
}

/// The lease on a resource, where it is held.
pub open spec fn held_on(s: StoreView, resource: Seq<char>, owner: Option<Seq<char>>, now: Seq<char>) -> Seq<
    HeldLeaseView,
> {
    match table::first(s.leases, leases::on(resource)) {
        Some(l) => one_if(
            leases::held(l, now),
            HeldLeaseView {
                resource,
                owner: l.owner,
                own: owner is Some && l.owner == owner,
                fence: l.fence,
                expires_at: l.expires_at,
            },
        ),
        None => Seq::empty(),
    }
}

/// The leases that are held.
pub open spec fn held_now(s: StoreView, owner: Option<Seq<char>>, now: Seq<char>) -> Seq<HeldLeaseView> {
    held_on(s, "rebuild"@, owner, now) + held_on(s, "restart"@, owner, now)
}

/// Somebody else than the one who asks holds a lease.
pub open spec fn held_by_another(held: Seq<HeldLeaseView>) -> bool {
    exists|i: int| 0 <= i < held.len() && !(#[trigger] held[i]).own
}

/// Nothing is running, as far as everything could be looked at.
pub open spec fn all_quiet(v: SafetyReportView) -> bool {
    v.working.len() == 0 && v.in_flight.len() == 0 && v.unreadable.len() == 0
}

/// Nothing would be lost: no prompt is on its way, nobody else holds a lease, everything could be
/// looked at.
pub open spec fn nothing_to_lose(v: SafetyReportView) -> bool {
    v.delivering.len() == 0 && v.unreadable.len() == 0 && !held_by_another(v.held_leases)
}

/// A queued assignment.
pub open spec fn queued() -> spec_fn(AssignmentView) -> bool {
    |a: AssignmentView| a.status == "queued"@
}

/// The bot of the manager.
pub open spec fn supervisor_bot(s: StoreView) -> Option<Seq<char>> {
    match s.supervisor {
        Some(r) => r.bot_id,
        None => None,
    }
}

/// The report at a moment.
pub open spec fn safety_of(
    s: StoreView,
    bots: Seq<BotProbeView>,
    exclude: Seq<Seq<char>>,
    approval_id: Option<Seq<char>>,
    owner: Option<Seq<char>>,
    escalate_after_secs: i64,
    now: Seq<char>,
) -> SafetyReportView {
    let escalation = escalation_of(s, approval_id, escalate_after_secs, now);
    let escalated = escalation is Some && escalation->0.escalated;
    let v = SafetyReportView {
        safe: false,
        escalated,
        escalation,
        escalate_after_secs,
        delivering: gathered(bots, delivering_in(exclude)),
        held_leases: held_now(s, owner, now),
        owner,
        working: gathered(bots, working_in(exclude, supervisor_bot(s))),
        in_flight: gathered(bots, in_flight_in(exclude)),
        unreadable: gathered(bots, unreadable_in(exclude)),
        blocked_waiting_for_user: gathered(bots, blocked_in(exclude)),
        queued_assignments: table::hits(
            table::ordered(s.assignments.filter(assignments::executing()), assignments::older()),
            queued(),
        ) as usize,
        checked_at: now,
    };
    SafetyReportView { safe: all_quiet(v) || (escalated && nothing_to_lose(v)), ..v }
}

pub(crate) fn holds(list: &Vec<String>, id: &str) -> (r: bool)
    ensures
        r == text::texts(list@).contains(id@),
{
    let ghost all = text::texts(list@);
    let mut i: usize = 0;
    while i < list.len()
        invariant
            i <= list.len(),
            all == text::texts(list@),
            forall|j: int| 0 <= j < i ==> #[trigger] all[j] != id@,
        decreases list.len() - i,
    {
        if text::same(list[i].as_str(), id) {
            assert(all[i as int] == id@);
            return true;
        }
        i += 1;
    }
    false
}

fn lease_held(s: &Store, now: &str, resource: &str, owner: Option<&str>) -> (r: Option<HeldLease>)
    ensures
        match r {
            Some(h) => held_on(s@, resource@, text::arg(owner), now@) == seq![h@],
            None => held_on(s@, resource@, text::arg(owner), now@).len() == 0,
        },
{
    match leases::lease(s, resource) {
        Some(l) => if l.held_at(now) {
            let own = owner.is_some() && text::same_opt(text::borrowed(&l.owner), owner);
            Some(
                HeldLease {
                    resource: resource.to_owned(),
                    owner: l.owner,
                    own,
                    fence: l.fence,
                    expires_at: l.expires_at,
                },
            )
        } else {
            None
        },
        None => None,
    }
}

/// The leases that are held, with those marked that the one who asks holds: one's own rebuild does
/// not stand in the way of one's own restart.
fn held_leases(s: &Store, now: &str, owner: Option<&str>) -> (r: Vec<HeldLease>)
    ensures
        table::views(r@) == held_now(s@, text::arg(owner), now@),
{
    let mut out: Vec<HeldLease> = Vec::new();
    if let Some(h) = lease_held(s, now, RESOURCES[0], owner) {
        out.push(h);
    }
    if let Some(h) = lease_held(s, now, RESOURCES[1], owner) {
        out.push(h);
    }
    assert(table::views(out@) =~= held_now(s@, text::arg(owner), now@));
    out
}

fn others_hold(held: &Vec<HeldLease>) -> (r: bool)
    ensures
        r == held_by_another(table::views(held@)),
{
    let ghost all = table::views(held@);
    let mut i: usize = 0;
    while i < held.len()
        invariant
            i <= held.len(),
            all == table::views(held@),
            forall|j: int| 0 <= j < i ==> (#[trigger] all[j]).own,
        decreases held.len() - i,
    {
        if !held[i].own {
            assert(!all[i as int].own);
            return true;
        }
        i += 1;
    }
    false
}

fn name_of(b: &BotProbe) -> (r: BotName)
    ensures
        r@ == named(b@),
{
    BotName { bot_id: b.id.clone(), name: b.name.clone() }
}

/// The lists that the report is made of.
struct Sightings {
    delivering: Vec<BotTurn>,
    working: Vec<WorkingBot>,
    in_flight: Vec<BotTurn>,
    unreadable: Vec<BotName>,
    blocked: Vec<BotName>,
}

impl Sightings {
    spec fn are_of(&self, bots: Seq<BotProbeView>, exclude: Seq<Seq<char>>, supervisor: Option<Seq<char>>) -> bool {
        &&& table::views(self.delivering@) == gathered(bots, delivering_in(exclude))
        &&& table::views(self.working@) == gathered(bots, working_in(exclude, supervisor))
        &&& table::views(self.in_flight@) == gathered(bots, in_flight_in(exclude))
        &&& table::views(self.unreadable@) == gathered(bots, unreadable_in(exclude))
        &&& table::views(self.blocked@) == gathered(bots, blocked_in(exclude))
    }

    fn new() -> (r: Sightings)
        ensures
            forall|exclude: Seq<Seq<char>>, supervisor: Option<Seq<char>>| #[trigger]
                r.are_of(Seq::empty(), exclude, supervisor),
    {
        let r = Sightings {
            delivering: Vec::new(),
            working: Vec::new(),
            in_flight: Vec::new(),
            unreadable: Vec::new(),
            blocked: Vec::new(),
        };
        assert(table::views(r.delivering@) =~= Seq::<BotTurnView>::empty());
        assert(table::views(r.working@) =~= Seq::<WorkingBotView>::empty());
        assert(table::views(r.in_flight@) =~= Seq::<BotTurnView>::empty());
        assert(table::views(r.unreadable@) =~= Seq::<BotNameView>::empty());
        assert(table::views(r.blocked@) =~= Seq::<BotNameView>::empty());
        r
    }

    fn take_in(&mut self, b: &BotProbe, exclude: &Vec<String>, supervisor: &Option<String>, seen: Ghost<Seq<BotProbeView>>)
        requires
            old(self).are_of(seen@, text::texts(exclude@), text::opt(*supervisor)),
        ensures
            final(self).are_of(seen@.push(b@), text::texts(exclude@), text::opt(*supervisor)),
    {
        let ghost ex = text::texts(exclude@);
        let ghost sup = text::opt(*supervisor);
        assert(seen@.push(b@).drop_last() =~= seen@);
        if !holds(exclude, b.id.as_str()) {
            match &b.delivering {
                TurnSeen::At(t) => {
                    self.delivering.push(BotTurn { bot_id: b.id.clone(), name: b.name.clone(), turn_id: t.clone() });
                },
                TurnSeen::Quiet => {},
                TurnSeen::Unreadable => {
                    self.unreadable.push(name_of(b));
                },
            }
            match &b.run {
                RunSeen::Unreadable => {
                    self.unreadable.push(name_of(b));
                },
                RunSeen::Stopped => {},
                RunSeen::Live { agent_status, in_flight } => {
                    proof {
                        reveal_strlit("working");
                        reveal_strlit("blocked");
                        assert("working"@[0] == 'w' && "blocked"@[0] == 'b');
                    }
                    if text::same(agent_status.as_str(), "working") {
                        self.working.push(
                            WorkingBot {
                                bot_id: b.id.clone(),
                                name: b.name.clone(),
                                is_supervisor: text::is_text(supervisor, b.id.as_str()),
                            },
                        );
                    } else if text::same(agent_status.as_str(), "blocked") {
                        self.blocked.push(name_of(b));
                    }
                    match in_flight {
                        TurnSeen::At(t) => {
                            self.in_flight.push(
                                BotTurn { bot_id: b.id.clone(), name: b.name.clone(), turn_id: t.clone() },
                            );
                        },
                        TurnSeen::Quiet => {},
                        TurnSeen::Unreadable => {
                            self.unreadable.push(name_of(b));
                        },
                    }
                },
            }
        }
        assert(table::views(self.delivering@) =~= gathered(seen@, delivering_in(ex)) + (delivering_in(ex))(b@));
        assert(table::views(self.working@) =~= gathered(seen@, working_in(ex, sup)) + (working_in(ex, sup))(b@));
        assert(table::views(self.in_flight@) =~= gathered(seen@, in_flight_in(ex)) + (in_flight_in(ex))(b@));
        assert(table::views(self.unreadable@) =~= gathered(seen@, unreadable_in(ex)) + (unreadable_in(ex))(b@));
        assert(table::views(self.blocked@) =~= gathered(seen@, blocked_in(ex)) + (blocked_in(ex))(b@));
    }
}

/// What is going on that a restart would interrupt, without an approval to count the wait of. The row of
/// the manager, which tells which bot is the manager's, is made on the first call.
pub fn safety(s: &mut Store, now: &str, bots: &Vec<BotProbe>, exclude: &Vec<String>, escalate_after_secs: i64) -> (r: SafetyReport)
    ensures
        final(s)@ == supervisor::initialised(old(s)@, now@),
        r@ == safety_of(old(s)@, table::views(bots@), text::texts(exclude@), None, None, escalate_after_secs, now@),
{
    safety_for(s, now, bots, exclude, None, escalate_after_secs)
}

/// The same, with the wait of one approval.
pub fn safety_for(
    s: &mut Store,
    now: &str,
    bots: &Vec<BotProbe>,
    exclude: &Vec<String>,
    approval_id: Option<&str>,
    escalate_after_secs: i64,
) -> (r: SafetyReport)
    ensures
        final(s)@ == supervisor::initialised(old(s)@, now@),
        r@ == safety_of(
            old(s)@,
            table::views(bots@),
            text::texts(exclude@),
            text::arg(approval_id),
            None,
            escalate_after_secs,
            now@,
        ),
{
    safety_as(s, now, bots, exclude, approval_id, None, escalate_after_secs)
}

/// The same, asked by somebody whose own leases do not stand in the way.
///
/// Panes that wait for a person are listed and do not stand in the way: they can wait for hours. A
/// bot that could not be looked at does stand in the way: it is not known to be idle.
pub fn safety_as(
    s: &mut Store,
    now: &str,
    bots: &Vec<BotProbe>,
    exclude: &Vec<String>,
    approval_id: Option<&str>,
    owner: Option<&str>,
    escalate_after_secs: i64,
) -> (r: SafetyReport)
    ensures
        final(s)@ == supervisor::initialised(old(s)@, now@),
        r@ == safety_of(
            old(s)@,
            table::views(bots@),
            text::texts(exclude@),
            text::arg(approval_id),
            text::arg(owner),
            escalate_after_secs,
            now@,
        ),
        r.escalation matches Some(e) ==> e.waited_secs >= 0,
{
    let supervisor: Option<String> = store::get_or_init(s, now).bot_id;
    let ghost all = table::views(bots@);
    let mut seen = Sightings::new();
    let mut i: usize = 0;
    assert(all.take(0) =~= Seq::<BotProbeView>::empty());
    while i < bots.len()
        invariant
            i <= bots.len(),
            all == table::views(bots@),
            seen.are_of(all.take(i as int), text::texts(exclude@), text::opt(supervisor)),
        decreases bots.len() - i,
    {
        assert(all.take(i as int).push(bots@[i as int]@) =~= all.take(i as int + 1));
        seen.take_in(&bots[i], exclude, &supervisor, Ghost(all.take(i as int)));
        i += 1;
    }
    assert(all.take(i as int) =~= all);
    let open = assignments::open_assignments(s);
    let queued_assignments: usize = table::count(&open, |a: &Assignment| -> (b: bool)
        ensures b == (queued())(a@)
        { text::same(a.status.as_str(), "queued") }, Ghost(queued()));
    let held = held_leases(s, now, owner);
    let escalation = escalation_for(s, now, approval_id, escalate_after_secs);
    let escalated = match &escalation {
        Some(e) => e.escalated,
        None => false,
    };
    let strict = seen.working.len() == 0 && seen.in_flight.len() == 0 && seen.unreadable.len() == 0;
    let relaxed = escalated && seen.delivering.len() == 0 && seen.unreadable.len() == 0 && !others_hold(&held);
    SafetyReport {
        safe: strict || relaxed,
        escalated,
        escalation,
        escalate_after_secs,
        delivering: seen.delivering,
        held_leases: held,
        owner: text::owned(owner),
        working: seen.working,
        in_flight: seen.in_flight,
        unreadable: seen.unreadable,
        blocked_waiting_for_user: seen.blocked,
        queued_assignments,
        checked_at: now.to_owned(),
    }
}

// ---------------------------------------------------------------- the report as JSON

/// A bot in a list, as JSON has it.
pub open spec fn bot_members(v: BotNameView) -> Seq<(Seq<char>, json::FieldView)> {
    seq![
        ("bot_id"@, json::FieldView::Str(v.bot_id)),
        ("name"@, json::FieldView::Str(v.name)),
    ]
}

impl BotName {
    pub fn to_json(&self) -> (r: String)
        ensures
            r@ == json::json_object(bot_members(self@)),
    {
        let fields = [
            ("bot_id", Field::Str(self.bot_id.as_str())),
            ("name", Field::Str(self.name.as_str())),
        ];
        assert(json::members(fields@) =~= bot_members(self@));
        json::object(&fields)
    }
}

/// A bot that a prompt is delivered to, as JSON has it.
pub open spec fn delivery_members(v: BotTurnView) -> Seq<(Seq<char>, json::FieldView)> {
    seq![
        ("bot_id"@, json::FieldView::Str(v.bot_id)),
        ("name"@, json::FieldView::Str(v.name)),
        ("turn_id"@, json::FieldView::Str(v.turn_id)),
    ]
}

impl BotTurn {
    pub fn to_json(&self) -> (r: String)
        ensures
            r@ == json::json_object(delivery_members(self@)),
    {
        let fields = [
            ("bot_id", Field::Str(self.bot_id.as_str())),
            ("name", Field::Str(self.name.as_str())),
            ("turn_id", Field::Str(self.turn_id.as_str())),
        ];
        assert(json::members(fields@) =~= delivery_members(self@));
        json::object(&fields)
    }
}

/// A working bot, as JSON has it.
pub open spec fn working_members(v: WorkingBotView) -> Seq<(Seq<char>, json::FieldView)> {
    seq![
        ("bot_id"@, json::FieldView::Str(v.bot_id)),
        ("name"@, json::FieldView::Str(v.name)),
        ("is_supervisor"@, json::FieldView::Bool(v.is_supervisor)),
    ]
}

impl WorkingBot {
    pub fn to_json(&self) -> (r: String)
        ensures
            r@ == json::json_object(working_members(self@)),
    {
        let fields = [
            ("bot_id", Field::Str(self.bot_id.as_str())),
            ("name", Field::Str(self.name.as_str())),
            ("is_supervisor", Field::Bool(self.is_supervisor)),
        ];
        assert(json::members(fields@) =~= working_members(self@));
        json::object(&fields)
    }
}

/// A held lease, as JSON has it.
pub open spec fn held_lease_members(v: HeldLeaseView) -> Seq<(Seq<char>, json::FieldView)> {
    seq![
        ("resource"@, json::FieldView::Str(v.resource)),
        ("owner"@, json::text_view(v.owner)),
        ("own"@, json::FieldView::Bool(v.own)),
        ("fence"@, json::FieldView::Int(v.fence)),
        ("expires_at"@, json::text_view(v.expires_at)),
    ]
}

impl HeldLease {
    pub fn to_json(&self) -> (r: String)
        ensures
            r@ == json::json_object(held_lease_members(self@)),
    {
        let fields = [
            ("resource", Field::Str(self.resource.as_str())),
            ("owner", json::text_or_null(&self.owner)),
            ("own", Field::Bool(self.own)),
            ("fence", Field::Int(self.fence)),
            ("expires_at", json::text_or_null(&self.expires_at)),
        ];
        assert(json::members(fields@) =~= held_lease_members(self@));
        json::object(&fields)
    }
}

/// A bot in the middle of a turn, as JSON has it.
pub open spec fn in_flight_members(v: BotTurnView) -> Seq<(Seq<char>, json::FieldView)> {
    seq![("bot_id"@, json::FieldView::Str(v.bot_id)), ("turn_id"@, json::FieldView::Str(v.turn_id))]
}

fn in_flight_json(v: &BotTurn) -> (r: String)
    ensures
        r@ == json::json_object(in_flight_members(v@)),
{
    let fields = [("bot_id", Field::Str(v.bot_id.as_str())), ("turn_id", Field::Str(v.turn_id.as_str()))];
    assert(json::members(fields@) =~= in_flight_members(v@));
    json::object(&fields)
}

/// The JSON texts of a list.
pub open spec fn bot_texts(v: Seq<BotNameView>) -> Seq<Seq<char>> {
    v.map_values(|e: BotNameView| json::json_object(bot_members(e)))
}

fn bots_json(list: &Vec<BotName>) -> (r: String)
    ensures
        r@ == json::json_array(bot_texts(table::views(list@))),
{
    let mut out: Vec<String> = Vec::new();
    let mut i: usize = 0;
    while i < list.len()
        invariant
            i <= list.len(),
            out.len() == i,
            forall|j: int|
                0 <= j < i ==> (#[trigger] out@[j])@ == json::json_object(bot_members(list@[j]@)),
        decreases list.len() - i,
    {
        out.push(list[i].to_json());
        i += 1;
    }
    assert(text::texts(out@) =~= bot_texts(table::views(list@)));
    json::array(&out)
}

/// The JSON texts of a list.
pub open spec fn delivery_texts(v: Seq<BotTurnView>) -> Seq<Seq<char>> {
    v.map_values(|e: BotTurnView| json::json_object(delivery_members(e)))
}

fn deliveries_json(list: &Vec<BotTurn>) -> (r: String)
    ensures
        r@ == json::json_array(delivery_texts(table::views(list@))),
{
    let mut out: Vec<String> = Vec::new();
    let mut i: usize = 0;
    while i < list.len()
        invariant
            i <= list.len(),
            out.len() == i,
            forall|j: int|
                0 <= j < i ==> (#[trigger] out@[j])@ == json::json_object(delivery_members(list@[j]@)),
        decreases list.len() - i,
    {
        out.push(list[i].to_json());
        i += 1;
    }
    assert(text::texts(out@) =~= delivery_texts(table::views(list@)));
    json::array(&out)
}

/// The JSON texts of a list.
pub open spec fn working_texts(v: Seq<WorkingBotView>) -> Seq<Seq<char>> {
    v.map_values(|e: WorkingBotView| json::json_object(working_members(e)))
}

fn workers_json(list: &Vec<WorkingBot>) -> (r: String)
    ensures
        r@ == json::json_array(working_texts(table::views(list@))),
{
    let mut out: Vec<String> = Vec::new();
    let mut i: usize = 0;
    while i < list.len()
        invariant
            i <= list.len(),
            out.len() == i,
            forall|j: int|
                0 <= j < i ==> (#[trigger] out@[j])@ == json::json_object(working_members(list@[j]@)),
        decreases list.len() - i,
    {
        out.push(list[i].to_json());
        i += 1;
    }
    assert(text::texts(out@) =~= working_texts(table::views(list@)));
    json::array(&out)
}

/// The JSON texts of a list.
pub open spec fn held_lease_texts(v: Seq<HeldLeaseView>) -> Seq<Seq<char>> {
    v.map_values(|e: HeldLeaseView| json::json_object(held_lease_members(e)))
}

fn held_leases_json(list: &Vec<HeldLease>) -> (r: String)
    ensures
        r@ == json::json_array(held_lease_texts(table::views(list@))),
{
    let mut out: Vec<String> = Vec::new();
    let mut i: usize = 0;
    while i < list.len()
        invariant
            i <= list.len(),
            out.len() == i,
            forall|j: int|
                0 <= j < i ==> (#[trigger] out@[j])@ == json::json_object(held_lease_members(list@[j]@)),
        decreases list.len() - i,
    {
        out.push(list[i].to_json());
        i += 1;
    }
    assert(text::texts(out@) =~= held_lease_texts(table::views(list@)));
    json::array(&out)
}

/// The JSON texts of a list.
pub open spec fn in_flight_texts(v: Seq<BotTurnView>) -> Seq<Seq<char>> {
    v.map_values(|e: BotTurnView| json::json_object(in_flight_members(e)))
}

fn turns_json(list: &Vec<BotTurn>) -> (r: String)
    ensures
        r@ == json::json_array(in_flight_texts(table::views(list@))),
{
    let mut out: Vec<String> = Vec::new();
    let mut i: usize = 0;
    while i < list.len()
        invariant
            i <= list.len(),
            out.len() == i,
            forall|j: int|
                0 <= j < i ==> (#[trigger] out@[j])@ == json::json_object(in_flight_members(list@[j]@)),
        decreases list.len() - i,
    {
        out.push(in_flight_json(&list[i]));
        i += 1;
    }
    assert(text::texts(out@) =~= in_flight_texts(table::views(list@)));
    json::array(&out)
}

/// The report, as JSON has it.
pub open spec fn safety_members(v: SafetyReportView) -> Seq<(Seq<char>, json::FieldView)> {
    let waited = match v.escalation {
        Some(e) => Some(e.waited_secs),
        None => None,
    };
    let approval_id = match v.escalation {
        Some(e) => Some(e.approval_id),
        None => None,
    };
    seq![
        ("safe"@, json::FieldView::Bool(v.safe)),
        ("escalated"@, json::FieldView::Bool(v.escalated)),
        ("waited_secs"@, json::int_view(waited)),
        ("escalation_approval_id"@, json::text_view(approval_id)),
        ("escalate_after_secs"@, json::FieldView::Int(v.escalate_after_secs)),
        ("delivering"@, json::FieldView::Json(json::json_array(delivery_texts(v.delivering)))),
        ("held_leases"@, json::FieldView::Json(json::json_array(held_lease_texts(v.held_leases)))),
        ("owner"@, json::text_view(v.owner)),
        ("working"@, json::FieldView::Json(json::json_array(working_texts(v.working)))),
        ("in_flight"@, json::FieldView::Json(json::json_array(in_flight_texts(v.in_flight)))),
        ("unreadable"@, json::FieldView::Json(json::json_array(bot_texts(v.unreadable)))),
        (
            "blocked_waiting_for_user"@,
            json::FieldView::Json(json::json_array(bot_texts(v.blocked_waiting_for_user))),
        ),
        ("queued_assignments"@, json::FieldView::Count(v.queued_assignments as u64)),
        ("checked_at"@, json::FieldView::Str(v.checked_at)),
    ]
}

impl SafetyReport {
    /// How long the approval that counts has waited.
    pub fn waited(&self) -> (r: Option<i64>)
        ensures
            r == match self@.escalation {
                Some(e) => Some(e.waited_secs),
                None => None,
            },
    {
        match &self.escalation {
            Some(e) => Some(e.waited_secs),
            None => None,
        }
    }

    pub fn to_json(&self) -> (r: String)
        ensures
            r@ == json::json_object(safety_members(self@)),
    {
        let delivering = deliveries_json(&self.delivering);
        let held = held_leases_json(&self.held_leases);
        let working = workers_json(&self.working);
        let in_flight = turns_json(&self.in_flight);
        let unreadable = bots_json(&self.unreadable);
        let blocked = bots_json(&self.blocked_waiting_for_user);
        let approval_id = match &self.escalation {
            Some(e) => Some(e.approval_id.as_str()),
            None => None,
        };
        let fields = [
            ("safe", Field::Bool(self.safe)),
            ("escalated", Field::Bool(self.escalated)),
            ("waited_secs", json::int_or_null(self.waited())),
            ("escalation_approval_id", json::str_or_null(approval_id)),
            ("escalate_after_secs", Field::Int(self.escalate_after_secs)),
            ("delivering", Field::Json(delivering.as_str())),
            ("held_leases", Field::Json(held.as_str())),
            ("owner", json::text_or_null(&self.owner)),
            ("working", Field::Json(working.as_str())),
            ("in_flight", Field::Json(in_flight.as_str())),
            ("unreadable", Field::Json(unreadable.as_str())),
            ("blocked_waiting_for_user", Field::Json(blocked.as_str())),
            ("queued_assignments", Field::Count(self.queued_assignments as u64)),
            ("checked_at", Field::Str(self.checked_at.as_str())),
        ];
        assert(json::members(fields@) =~= safety_members(self@));
        json::object(&fields)
    }
}

// ---------------------------------------------------------------- taking a window

/// A bot, as a requester may be known by.
#[derive(Debug)]
pub struct BotEntry {
    pub id: String,
    pub name: String,
    pub live: bool,
}

/// What a `BotEntry` holds.
#[verifier::ext_equal]
pub struct BotEntryView {
    pub id: Seq<char>,
    pub name: Seq<char>,
    pub live: bool,
}

impl Row for BotEntry {
    fn copied(&self) -> (r: Self) {
        BotEntry { id: self.id.clone(), name: self.name.clone(), live: self.live }
    }
}

impl View for BotEntry {
    type V = BotEntryView;

    open spec fn view(&self) -> BotEntryView {
        BotEntryView {
            id: self.id@,
            name: self.name@,
            live: self.live,
        }
    }
}

/// A run, by the name of its agent.
#[derive(Debug)]
pub struct RunEntry {
    pub bot_id: String,
    pub agent_name: Option<String>,
    pub state: String,
    pub started_at: String,
}

/// What a `RunEntry` holds.
#[verifier::ext_equal]
pub struct RunEntryView {
    pub bot_id: Seq<char>,
    pub agent_name: Option<Seq<char>>,
    pub state: Seq<char>,
    pub started_at: Seq<char>,
}

impl Row for RunEntry {
    fn copied(&self) -> (r: Self) {
        RunEntry {
            bot_id: self.bot_id.clone(),
            agent_name: text::copied(&self.agent_name),
            state: self.state.clone(),
            started_at: self.started_at.clone(),
        }
    }
}

impl View for RunEntry {
    type V = RunEntryView;

    open spec fn view(&self) -> RunEntryView {
        RunEntryView {
            bot_id: self.bot_id@,
            agent_name: text::opt(self.agent_name),
            state: self.state@,
            started_at: self.started_at@,
        }
    }
}

/// The bots and runs that a requester is looked up in.
#[derive(Debug)]
pub struct Directory {
    pub bots: Vec<BotEntry>,
    pub runs: Vec<RunEntry>,
}

/// What a `Directory` holds.
#[verifier::ext_equal]
pub struct DirectoryView {
    pub bots: Seq<BotEntryView>,
    pub runs: Seq<RunEntryView>,
}

impl View for Directory {
    type V = DirectoryView;

    open spec fn view(&self) -> DirectoryView {
        DirectoryView { bots: table::views(self.bots@), runs: table::views(self.runs@) }
    }
}

/// The bot with this id.
pub open spec fn bot_with_id(id: Seq<char>) -> spec_fn(BotEntryView) -> bool {
    |b: BotEntryView| b.id == id
}

/// A live bot with this name.
pub open spec fn bot_named(name: Seq<char>) -> spec_fn(BotEntryView) -> bool {
    |b: BotEntryView| b.live && b.name == name
}

/// A running run of an agent with this name.
pub open spec fn agent_named(name: Seq<char>) -> spec_fn(RunEntryView) -> bool {
    |r: RunEntryView| r.agent_name == Some(name) && r.state == "running"@
}

/// One run was started after another.
pub open spec fn started_later() -> spec_fn(RunEntryView, RunEntryView) -> bool {
    |a: RunEntryView, b: RunEntryView| text::text_before(b.started_at, a.started_at)
}

/// The bot of a requester: known by its id, by its name, or by the name of its agent.
pub open spec fn requester_bot(d: DirectoryView, owner: Seq<char>) -> Option<Seq<char>> {
    let name = text::trimmed(owner);
    let running = table::ordered(d.runs.filter(agent_named(name)), started_later());
    if name.len() == 0 {
        None
    } else if table::any(d.bots, bot_with_id(name)) {
        Some(name)
    } else if table::first(d.bots, bot_named(name)) is Some {
        Some(table::first(d.bots, bot_named(name))->0.id)
    } else if running.len() > 0 {
        Some(running[0].bot_id)
    } else {
        None
    }
}

/// Which bot an owner is; a script that is no bot has none.
pub fn requester_bot_id(d: &Directory, owner: &str) -> (r: Option<String>)
    ensures
        text::opt(r) == requester_bot(d@, owner@),
{
    let name = text::trim(owner);
    if name.unicode_len() == 0 {
        return None;
    }
    proof {
        table::first_is_a_hit(d@.bots, bot_with_id(name@));
    }
    if table::find(&d.bots, |b: &BotEntry| -> (c: bool)
        ensures c == (bot_with_id(name@))(b@)
        { text::same(b.id.as_str(), name) }, Ghost(bot_with_id(name@))).is_some() {
        return Some(name.to_owned());
    }
    if let Some(b) = table::find(&d.bots, |b: &BotEntry| -> (c: bool)
        ensures c == (bot_named(name@))(b@)
        { b.live && text::same(b.name.as_str(), name) }, Ghost(bot_named(name@))) {
        return Some(b.id.clone());
    }
    let running = table::select(&d.runs, |r: &RunEntry| -> (c: bool)
        ensures c == (agent_named(name@))(r@)
        { text::is_text(&r.agent_name, name) && text::same(r.state.as_str(), "running") }, Ghost(agent_named(name@)));
    let sorted = table::arrange(running, |a: &RunEntry, b: &RunEntry| -> (c: bool)
        ensures c == (started_later())(a@, b@)
        { text::precedes(b.started_at.as_str(), a.started_at.as_str()) }, Ghost(started_later()));
    if sorted.len() > 0 {
        let ghost list = table::views(sorted@);
        assert(sorted@[0]@ == list[0]);
        Some(sorted[0].bot_id.clone())
    } else {
        None
    }
}

/// The first of a list that is not this bot.
pub open spec fn first_other(exclude: Seq<Seq<char>>, me: Option<Seq<char>>) -> Option<Seq<char>> {
    table::first(exclude, |id: Seq<char>| Some(id) != me)
}

fn find_other(exclude: &Vec<String>, me: Option<&str>) -> (r: Option<String>)
    ensures
        text::opt(r) == first_other(text::texts(exclude@), text::arg(me)),
{
    let ghost all = text::texts(exclude@);
    let ghost hit = |id: Seq<char>| Some(id) != text::arg(me);
    let mut i: usize = 0;
    while i < exclude.len()
        invariant
            i <= exclude.len(),
            all == text::texts(exclude@),
            hit == (|id: Seq<char>| Some(id) != text::arg(me)),
            forall|j: int| 0 <= j < i ==> !hit(#[trigger] all[j]),
        decreases exclude.len() - i,
    {
        if !text::same_opt(Some(exclude[i].as_str()), me) {
            proof {
                assert(all[i as int] == exclude@[i as int]@);
                table::first_at(all, hit, i as int);
            }
            return Some(exclude[i].clone());
        }
        i += 1;
    }
    proof {
        table::first_of_none(all, hit);
    }
    None
}

/// The bot that the quiet of the window does not count: the requester's own, where it asked for that.
pub open spec fn left_out(exclude: Seq<Seq<char>>, me: Option<Seq<char>>) -> Option<Seq<char>> {
    if me is Some && exclude.contains(me->0) {
        me
    } else {
        None
    }
}

fn exclude_from_quiet(exclude: &Vec<String>, self_bot: &Option<String>) -> (r: Option<String>)
    ensures
        text::opt(r) == left_out(text::texts(exclude@), text::opt(*self_bot)),
{
    match self_bot {
        Some(me) => if holds(exclude, me.as_str()) {
            Some(me.clone())
        } else {
            None
        },
        None => None,
    }
}

/// Why a window was not given.
#[derive(Debug)]
pub enum AcquireError {
    /// There is no such resource.
    UnknownResource,
    /// A restart interrupts every session: its idle check cannot be skipped.
    IdleCheckRequired,
    NoApproval,
    /// The approval does not cover this.
    NotCovered { reason: &'static str, approval: Approval },
    /// The approval was granted to somebody else.
    GrantedToAnother { approval: Approval },
    /// The approval already opened a window, which ran out without being released.
    AlreadyUsed { approval: Approval, fence: i64 },
    /// Only the requester's own bot can be left out of the check.
    ExcludeNotRequester { excluded: String, requester: String, requester_bot_id: Option<String> },
    /// Something is still running; where waiting will help, `escalates_in` is how many seconds are left.
    NotIdle { safety: SafetyReport, escalates_in: Option<u64> },
    /// A prompt went out while the window was being taken.
    Raced,
    /// Somebody else holds the window.
    Held { lease: Option<Lease> },
}

/// A window that was given. The token is shown here and nowhere else.
#[derive(Debug)]
pub struct Acquired {
    pub lease: Lease,
    pub approval: Approval,
    pub safety: SafetyReport,
}

/// What somebody is told who was given a window.
pub open spec fn granted_members(
    lease: LeaseView,
    approval: ApprovalView,
    safety: SafetyReportView,
    token: Option<Seq<char>>,
    now: Seq<char>,
) -> Seq<(Seq<char>, json::FieldView)> {
    seq![
        ("lease"@, json::FieldView::Json(json::json_object(render::lease_members(lease, now)))),
        ("lease_token"@, json::text_view(token)),
        ("approval"@, json::FieldView::Json(json::json_object(render::approval_members(approval)))),
        ("safety"@, json::FieldView::Json(json::json_object(safety_members(safety)))),
    ]
}

impl Acquired {
    /// The answer as a JSON text, with the token of the lease in it.
    pub fn to_json(&self, token: Option<&str>, now: &str) -> (r: String)
        ensures
            r@ == json::json_object(granted_members(self.lease@, self.approval@, self.safety@, text::arg(token), now@)),
    {
        let lease = self.lease.to_json(now);
        let approval = self.approval.to_json();
        let safety = self.safety.to_json();
        let fields = [
            ("lease", Field::Json(lease.as_str())),
            ("lease_token", json::str_or_null(token)),
            ("approval", Field::Json(approval.as_str())),
            ("safety", Field::Json(safety.as_str())),
        ];
        assert(json::members(fields@) =~= granted_members(self.lease@, self.approval@, self.safety@, text::arg(token), now@));
        json::object(&fields)
    }
}

/// What came of asking for a window.
pub enum Outcome {
    UnknownResource,
    IdleCheckRequired,
    NoApproval,
    NotCovered { reason: Seq<char>, approval: ApprovalView },
    GrantedToAnother { approval: ApprovalView },
    AlreadyUsed { approval: ApprovalView, fence: i64 },
    ExcludeNotRequester { excluded: Seq<char>, requester: Seq<char>, requester_bot_id: Option<Seq<char>> },
    NotIdle { safety: SafetyReportView, escalates_in: Option<u64> },
    Raced,
    Held { holder: Option<LeaseView> },
    Taken { lease: LeaseView, approval: ApprovalView, safety: SafetyReportView },
}

pub open spec fn outcome_of(res: Result<Acquired, AcquireError>) -> Outcome {
    match res {
        Ok(t) => Outcome::Taken { lease: t.lease@, approval: t.approval@, safety: t.safety@ },
        Err(e) => match e {
            AcquireError::UnknownResource => Outcome::UnknownResource,
            AcquireError::IdleCheckRequired => Outcome::IdleCheckRequired,
            AcquireError::NoApproval => Outcome::NoApproval,
            AcquireError::NotCovered { reason, approval } => Outcome::NotCovered {
                reason: reason@,
                approval: approval@,
            },
            AcquireError::GrantedToAnother { approval } => Outcome::GrantedToAnother { approval: approval@ },
            AcquireError::AlreadyUsed { approval, fence } => Outcome::AlreadyUsed { approval: approval@, fence },
            AcquireError::ExcludeNotRequester { excluded, requester, requester_bot_id } => Outcome::ExcludeNotRequester {
                excluded: excluded@,
                requester: requester@,
                requester_bot_id: text::opt(requester_bot_id),
            },
            AcquireError::NotIdle { safety, escalates_in } => Outcome::NotIdle { safety: safety@, escalates_in },
            AcquireError::Raced => Outcome::Raced,
            AcquireError::Held { lease } => Outcome::Held { holder: table::opt_view(lease) },
        },
    }
}

/// The life of a lease, within bounds.
pub open spec fn ttl(secs: i64) -> int {
    if secs < 30 {
        30
    } else if secs > 3600 {
        3600
    } else {
        secs as int
    }
}

/// How many seconds are left until the wait is long enough, where it is not yet.
pub open spec fn escalates_in(v: SafetyReportView) -> Option<u64> {
    match v.escalation {
        Some(e) => if e.waited_secs < v.escalate_after_secs {
            Some((v.escalate_after_secs - e.waited_secs) as u64)
        } else {
            None
        },
        None => None,
    }
}

/// What is kept with a lease about how it came to be given.
pub open spec fn lease_detail(require_idle: bool, safety: SafetyReportView, excluded_self: Option<Seq<char>>) -> Seq<char> {
    json::json_object(
        seq![
            ("require_idle"@, json::FieldView::Bool(require_idle)),
            ("safety"@, json::FieldView::Json(json::json_object(safety_members(safety)))),
            ("excluded_self"@, json::text_view(excluded_self)),
        ],
    )
}

/// The approval opened the window before, and that window ran out.
pub open spec fn spent(lease: Option<LeaseView>, approval_id: Seq<char>, now: Seq<char>) -> bool {
    lease matches Some(l) && l.released_at is None && !leases::held(l, now) && l.approval_id == Some(approval_id)
}

/// A request for a window.
#[derive(Debug, Clone, Copy)]
pub struct WindowRequest<'a> {
    pub resource: &'a str,
    pub owner: &'a str,
    pub approval_id: &'a str,
    pub commit: Option<&'a str>,
    pub ttl_secs: i64,
    pub require_idle: bool,
}

/// What a `WindowRequest` holds.
pub struct WindowRequestView {
    pub resource: Seq<char>,
    pub owner: Seq<char>,
    pub approval_id: Seq<char>,
    pub commit: Option<Seq<char>>,
    pub ttl_secs: i64,
    pub require_idle: bool,
}

impl<'a> View for WindowRequest<'a> {
    type V = WindowRequestView;

    open spec fn view(&self) -> WindowRequestView {
        WindowRequestView {
            resource: self.resource@,
            owner: self.owner@,
            approval_id: self.approval_id@,
            commit: text::arg(self.commit),
            ttl_secs: self.ttl_secs,
            require_idle: self.require_idle,
        }
    }
}

/// When the wait is long enough, given how many seconds are left.
pub open spec fn escalates_at(left: Option<u64>, now: Instant) -> Option<Seq<char>> {
    match left {
        Some(n) => Some(time::iso_millis(now.plus(n as int))),
        None => None,
    }
}

/// The advice for somebody whose wait is not long enough yet.
pub open spec fn wait_hint(threshold: i64, at: Seq<char>) -> Seq<char> {
    "同一張核准等滿 "@ + text::decimal(threshold as int)
        + "s 之後 working 就不再擋（只剩送達臨界區、別人的租約、讀不到狀態）；預計 "@ + at
        + " 可以拿。帶同一張 --approval 再試，換一張會重算。"@
}

/// The detail of a refusal of a window; `None` where the answer is words alone.
pub open spec fn refusal_members(o: Outcome, owner: Seq<char>, commit: Option<Seq<char>>, now: Instant) -> Option<
    Seq<(Seq<char>, json::FieldView)>,
> {
    match o {
        Outcome::NotCovered { reason, approval } => Some(
            seq![
                ("reason"@, json::FieldView::Str(reason)),
                ("approval_id"@, json::FieldView::Str(approval.id)),
                ("status"@, json::FieldView::Str(approval.status)),
                ("target_commit"@, json::text_view(approval.target_commit)),
                ("requested_commit"@, json::text_view(commit)),
            ],
        ),
        Outcome::GrantedToAnother { approval } => Some(
            seq![
                ("reason"@, json::FieldView::Str("approval_owner_mismatch"@)),
                ("approval_id"@, json::FieldView::Str(approval.id)),
                ("requester"@, json::FieldView::Str(approval.requester)),
                ("owner"@, json::FieldView::Str(owner)),
                (
                    "hint"@,
                    json::FieldView::Str("acquire 的 --owner 要跟申請時的 --requester 一樣；要自己開窗口就自己申請一筆"@),
                ),
            ],
        ),
        Outcome::AlreadyUsed { approval, fence } => Some(
            seq![
                ("reason"@, json::FieldView::Str("approval_already_used"@)),
                ("approval_id"@, json::FieldView::Str(approval.id)),
                ("fence"@, json::FieldView::Int(fence)),
                ("hint"@, json::FieldView::Str("那個窗口已經用掉這筆核准；要再開一個窗口請重新申請"@)),
            ],
        ),
        Outcome::ExcludeNotRequester { excluded, requester, requester_bot_id } => Some(
            seq![
                ("reason"@, json::FieldView::Str("exclude_not_requester"@)),
                ("excluded"@, json::FieldView::Str(excluded)),
                ("requester"@, json::FieldView::Str(requester)),
                ("requester_bot_id"@, json::text_view(requester_bot_id)),
                (
                    "hint"@,
                    json::FieldView::Str("--exclude-bot 只能指到申請這筆核准的那顆 bot；別顆 bot 正在跑就等它，不要把它排掉"@),
                ),
            ],
        ),
        Outcome::NotIdle { safety, escalates_in } => Some(
            seq![
                ("reason"@, json::FieldView::Str("not_idle"@)),
                ("waited_secs"@, json::int_view(match safety.escalation {
                    Some(e) => Some(e.waited_secs),
                    None => None,
                })),
                ("escalate_after_secs"@, json::FieldView::Int(safety.escalate_after_secs)),
                ("escalates_at"@, json::text_view(escalates_at(escalates_in, now))),
                ("hint"@, json::text_view(match escalates_at(escalates_in, now) {
                    Some(at) => Some(wait_hint(safety.escalate_after_secs, at)),
                    None => None,
                })),
                ("safety"@, json::FieldView::Json(json::json_object(safety_members(safety)))),
            ],
        ),
        Outcome::Raced => Some(
            seq![
                ("reason"@, json::FieldView::Str("not_idle"@)),
                ("raced"@, json::FieldView::Bool(true)),
                ("checked_at"@, json::FieldView::Str(time::iso_millis(now))),
                ("hint"@, json::FieldView::Str("safety 讀完到拿租約之間有一則 prompt 進來了；再問一次 safety 然後重試"@)),
            ],
        ),
        Outcome::Held { holder } => Some(
            seq![
                ("reason"@, json::FieldView::Str("lease_held"@)),
                ("lease"@, match holder {
                    Some(l) => json::FieldView::Json(json::json_object(render::lease_members(l, time::iso_millis(now)))),
                    None => json::FieldView::Null,
                }),
            ],
        ),
        _ => None,
    }
}

/// The words of a refusal of a window.
pub open spec fn refusal_words(o: Outcome, resource: Seq<char>) -> Seq<char> {
    match o {
        Outcome::UnknownResource => "unknown lease resource: "@ + resource,
        Outcome::IdleCheckRequired => "the `"@ + resource + "` window cannot skip the idle check; wait for a safe window instead"@,
        Outcome::NoApproval => "approval"@,
        Outcome::NotCovered { .. } => "the approval does not cover this operation"@,
        Outcome::GrantedToAnother { .. } => "the approval was granted to someone else"@,
        Outcome::AlreadyUsed { .. } => "this approval already opened a window that expired without being released"@,
        Outcome::ExcludeNotRequester { .. } => "a restart window may only ignore the requester's own bot"@,
        Outcome::NotIdle { .. } => "something is still running; wait for a safe window"@,
        Outcome::Raced => "a prompt entered the delivery critical section while this window was being taken"@,
        Outcome::Held { .. } => "someone else holds this window"@,
        Outcome::Taken { .. } => ""@,
    }
}

/// What somebody is told who was refused a window.
pub open spec fn window_refusal(o: Outcome, q: WindowRequestView, now: Instant) -> RefusalView {
    let message = refusal_words(o, q.resource);
    match refusal_members(o, q.owner, q.commit, now) {
        Some(m) => RefusalView::Conflict { message, detail: json::json_object(m) },
        None => if o is NoApproval {
            RefusalView::NotFound(message)
        } else {
            RefusalView::Bad(message)
        },
    }
}

impl AcquireError {
    /// The time at which waiting is long enough can be written down.
    pub open spec fn fits(self, now: Instant) -> bool {
        &&& now.valid()
        &&& self matches AcquireError::NotIdle { escalates_in: Some(n), .. } ==> now.secs + n <= 8_210_266_876_799
    }

    /// The detail of the refusal as a JSON text; `None` where the answer is words alone.
    pub fn detail(&self, owner: &str, commit: Option<&str>, now: Instant) -> (r: Option<String>)
        requires
            self.fits(now),
        ensures
            ({
                let m = refusal_members(outcome_of(Err(*self)), owner@, text::arg(commit), now);
                match r {
                    Some(t) => m is Some && t@ == json::json_object(m->0),
                    None => m is None,
                }
            }),
    {
        let ghost m = refusal_members(outcome_of(Err(*self)), owner@, text::arg(commit), now);
        match self {
            AcquireError::UnknownResource => None,
            AcquireError::IdleCheckRequired => None,
            AcquireError::NoApproval => None,
            AcquireError::NotCovered { reason, approval } => {
                let fields = [
                    ("reason", Field::Str(reason)),
                    ("approval_id", Field::Str(approval.id.as_str())),
                    ("status", Field::Str(approval.status.as_str())),
                    ("target_commit", json::text_or_null(&approval.target_commit)),
                    ("requested_commit", json::str_or_null(commit)),
                ];
                assert(json::members(fields@) =~= m->0);
                Some(json::object(&fields))
            },
            AcquireError::GrantedToAnother { approval } => {
                let fields = [
                    ("reason", Field::Str("approval_owner_mismatch")),
                    ("approval_id", Field::Str(approval.id.as_str())),
                    ("requester", Field::Str(approval.requester.as_str())),
                    ("owner", Field::Str(owner)),
                    ("hint", Field::Str("acquire 的 --owner 要跟申請時的 --requester 一樣；要自己開窗口就自己申請一筆")),
                ];
                assert(json::members(fields@) =~= m->0);
                Some(json::object(&fields))
            },
            AcquireError::AlreadyUsed { approval, fence } => {
                let fields = [
                    ("reason", Field::Str("approval_already_used")),
                    ("approval_id", Field::Str(approval.id.as_str())),
                    ("fence", Field::Int(*fence)),
                    ("hint", Field::Str("那個窗口已經用掉這筆核准；要再開一個窗口請重新申請")),
                ];
                assert(json::members(fields@) =~= m->0);
                Some(json::object(&fields))
            },
            AcquireError::ExcludeNotRequester { excluded, requester, requester_bot_id } => {
                let fields = [
                    ("reason", Field::Str("exclude_not_requester")),
                    ("excluded", Field::Str(excluded.as_str())),
                    ("requester", Field::Str(requester.as_str())),
                    ("requester_bot_id", json::text_or_null(requester_bot_id)),
                    ("hint", Field::Str("--exclude-bot 只能指到申請這筆核准的那顆 bot；別顆 bot 正在跑就等它，不要把它排掉")),
                ];
                assert(json::members(fields@) =~= m->0);
                Some(json::object(&fields))
            },
            AcquireError::NotIdle { safety, escalates_in } => {
                let at: Option<String> = match escalates_in {
                    Some(n) => Some(time::iso(now.later(*n))),
                    None => None,
                };
                let hint: Option<String> = match &at {
                    Some(t) => {
                        let n = text::signed(safety.escalate_after_secs);
                        let mut h = text::joined("同一張核准等滿 ", n.as_str());
                        h = text::joined(h.as_str(), "s 之後 working 就不再擋（只剩送達臨界區、別人的租約、讀不到狀態）；預計 ");
                        h = text::joined(h.as_str(), t.as_str());
                        Some(text::joined(h.as_str(), " 可以拿。帶同一張 --approval 再試，換一張會重算。"))
                    },
                    None => None,
                };
                let report = safety.to_json();
                let fields = [
                    ("reason", Field::Str("not_idle")),
                    ("waited_secs", json::int_or_null(safety.waited())),
                    ("escalate_after_secs", Field::Int(safety.escalate_after_secs)),
                    ("escalates_at", json::text_or_null(&at)),
                    ("hint", json::text_or_null(&hint)),
                    ("safety", Field::Json(report.as_str())),
                ];
                assert(json::members(fields@) =~= m->0);
                Some(json::object(&fields))
            },
            AcquireError::Raced => {
                let at = time::iso(now);
                let fields = [
                    ("reason", Field::Str("not_idle")),
                    ("raced", Field::Bool(true)),
                    ("checked_at", Field::Str(at.as_str())),
                    ("hint", Field::Str("safety 讀完到拿租約之間有一則 prompt 進來了；再問一次 safety 然後重試")),
                ];
                assert(json::members(fields@) =~= m->0);
                Some(json::object(&fields))
            },
            AcquireError::Held { lease } => {
                let at = time::iso(now);
                let shown: Option<String> = match lease {
                    Some(l) => Some(l.to_json(at.as_str())),
                    None => None,
                };
                let fields = [
                    ("reason", Field::Str("lease_held")),
                    ("lease", match &shown {
                        Some(t) => Field::Json(t.as_str()),
                        None => Field::Null,
                    }),
                ];
                assert(json::members(fields@) =~= m->0);
                Some(json::object(&fields))
            },
        }
    }

    /// The words of the refusal.
    pub fn message(&self, resource: &str) -> (r: String)
        ensures
            r@ == refusal_words(outcome_of(Err(*self)), resource@),
    {
        match self {
            AcquireError::UnknownResource => text::joined("unknown lease resource: ", resource),
            AcquireError::IdleCheckRequired => text::joined(
                text::joined("the `", resource).as_str(),
                "` window cannot skip the idle check; wait for a safe window instead",
            ),
            AcquireError::NoApproval => "approval".to_owned(),
            AcquireError::NotCovered { .. } => "the approval does not cover this operation".to_owned(),
            AcquireError::GrantedToAnother { .. } => "the approval was granted to someone else".to_owned(),
            AcquireError::AlreadyUsed { .. } => {
                "this approval already opened a window that expired without being released".to_owned()
            },
            AcquireError::ExcludeNotRequester { .. } => {
                "a restart window may only ignore the requester's own bot".to_owned()
            },
            AcquireError::NotIdle { .. } => "something is still running; wait for a safe window".to_owned(),
            AcquireError::Raced => {
                "a prompt entered the delivery critical section while this window was being taken".to_owned()
            },
            AcquireError::Held { .. } => "someone else holds this window".to_owned(),
        }
    }

    /// What the caller is told.
    pub fn refusal(&self, q: WindowRequest<'_>, now: Instant) -> (r: Refusal)
        requires
            self.fits(now),
        ensures
            r@ == window_refusal(outcome_of(Err(*self)), q@, now),
    {
        let message = self.message(q.resource);
        match self.detail(q.owner, q.commit, now) {
            Some(detail) => Refusal::Conflict { message, detail },
            None => match self {
                AcquireError::NoApproval => Refusal::NotFound(message),
                _ => Refusal::Bad(message),
            },
        }
    }
}

/// The end of a lease that is given now.
pub open spec fn given_until(q: WindowRequestView, approval: ApprovalView, now: Instant) -> Seq<char> {
    deadline(time::iso_millis(now.plus(ttl(q.ttl_secs))), approval.expires_at)
}

/// What taking the lease comes to, with an approval and a report that allow it.
pub open spec fn taking(
    s: StoreView,
    q: WindowRequestView,
    approval: ApprovalView,
    safety: SafetyReportView,
    token: Seq<char>,
    decision_id: Seq<char>,
    me: Option<Seq<char>>,
    exclude: Seq<Seq<char>>,
    traffic: TrafficView,
    now: Instant,
) -> (Outcome, StoreView) {
    let iso = time::iso_millis(now);
    let quiet = exclusive(q.resource);
    let excluded_self = if quiet {
        left_out(exclude, me)
    } else {
        None
    };
    let (lease, after) = leases::acquired(
        s,
        iso,
        token,
        decision_id,
        q.resource,
        q.owner,
        Some(approval.id),
        q.commit,
        given_until(q, approval, now),
        quiet,
        traffic,
        excluded_self,
        lease_detail(q.require_idle, safety, excluded_self),
    );
    match lease {
        Some(l) => (Outcome::Taken { lease: l, approval, safety }, after),
        None => {
            let there = table::first(after.leases, leases::on(q.resource));
            if (there is None || !leases::held(there->0, iso)) && table::any(
                traffic.turns,
                leases::critical_except(traffic.runs, None),
            ) {
                (Outcome::Raced, after)
            } else {
                (Outcome::Held { holder: there }, after)
            }
        },
    }
}

/// What asking for a window comes to, and the store afterwards.
pub open spec fn asking(
    s: StoreView,
    q: WindowRequestView,
    token: Seq<char>,
    decision_id: Seq<char>,
    exclude: Seq<Seq<char>>,
    bots: Seq<BotProbeView>,
    directory: DirectoryView,
    traffic: TrafficView,
    escalate_after_secs: i64,
    now: Instant,
) -> (Outcome, StoreView) {
    let iso = time::iso_millis(now);
    let found = table::first(s.approvals, approvals::with_id(q.approval_id));
    let approval = found->0;
    let lease = table::first(s.leases, leases::on(q.resource));
    let me = requester_bot(directory, q.owner);
    let other = first_other(exclude, me);
    let read = supervisor::initialised(s, iso);
    let safety = safety_of(s, bots, exclude, Some(approval.id), Some(q.owner), escalate_after_secs, iso);
    if !known_resource(q.resource) {
        (Outcome::UnknownResource, s)
    } else if exclusive(q.resource) && !q.require_idle {
        (Outcome::IdleCheckRequired, s)
    } else if found is None {
        (Outcome::NoApproval, s)
    } else if approvals::unusable(approval, iso, q.resource, q.commit) is Some {
        (
            Outcome::NotCovered {
                reason: approvals::unusable(approval, iso, q.resource, q.commit)->0,
                approval,
            },
            s,
        )
    } else if approval.requester != q.owner {
        (Outcome::GrantedToAnother { approval }, s)
    } else if spent(lease, approval.id, iso) {
        (
            Outcome::AlreadyUsed { approval, fence: lease->0.fence },
            leases::used_up(s, approval.id, decision_id, "daemon"@, "lease expired"@, iso),
        )
    } else if exclusive(q.resource) && other is Some {
        (
            Outcome::ExcludeNotRequester { excluded: other->0, requester: approval.requester, requester_bot_id: me },
            s,
        )
    } else if q.require_idle && !safety.safe {
        (Outcome::NotIdle { safety, escalates_in: escalates_in(safety) }, read)
    } else {
        taking(read, q, approval, safety, token, decision_id, me, exclude, traffic, now)
    }
}

fn seconds_left(safety: &SafetyReport) -> (r: Option<u64>)
    requires
        safety.escalation matches Some(e) ==> e.waited_secs >= 0,
    ensures
        r == escalates_in(safety@),
{
    match &safety.escalation {
        Some(e) => if e.waited_secs < safety.escalate_after_secs {
            Some((safety.escalate_after_secs - e.waited_secs) as u64)
        } else {
            None
        },
        None => None,
    }
}

fn detail_text(require_idle: bool, safety: &SafetyReport, excluded_self: &Option<String>) -> (r: String)
    ensures
        r@ == lease_detail(require_idle, safety@, text::opt(*excluded_self)),
{
    let report = safety.to_json();
    let fields = [
        ("require_idle", Field::Bool(require_idle)),
        ("safety", Field::Json(report.as_str())),
        ("excluded_self", json::text_or_null(excluded_self)),
    ];
    assert(json::members(fields@) =~= seq![
        ("require_idle"@, json::FieldView::Bool(require_idle)),
        ("safety"@, json::FieldView::Json(json::json_object(safety_members(safety@)))),
        ("excluded_self"@, json::text_view(text::opt(*excluded_self))),
    ]);
    json::object(&fields)
}

/// The lease is given now and held.
proof fn given_is_held(now: Instant, end: Instant, l: LeaseView, approval_expires_at: Option<Seq<char>>)
    requires
        now.named(),
        end.named(),
        end.secs >= now.secs + 30,
        time::rfc3339(time::iso_millis(now)) == Some(
            Instant { secs: now.secs, nanos: (now.nanos as int / 1_000_000 * 1_000_000) as u32 },
        ),
        time::rfc3339(time::iso_millis(end)) == Some(
            Instant { secs: end.secs, nanos: (end.nanos as int / 1_000_000 * 1_000_000) as u32 },
        ),
        approval_expires_at matches Some(t) ==> time::ts_before(time::iso_millis(now), t),
        l.released_at is None,
        l.expires_at == Some(deadline(time::iso_millis(end), approval_expires_at)),
    ensures
        leases::held(l, time::iso_millis(now)),
{
}

/// Take a window: the approval is looked at, safety is asked again, and the lease is taken, in one
/// step.
pub fn acquire(
    s: &mut Store,
    now: Instant,
    token: &str,
    decision_id: &str,
    q: WindowRequest<'_>,
    exclude: &Vec<String>,
    bots: &Vec<BotProbe>,
    directory: &Directory,
    traffic: &Traffic,
    escalate_after_secs: i64,
) -> (res: Result<Acquired, AcquireError>)
    requires
        now.valid(),
        ({
            let got = asking(
                old(s)@,
                q@,
                token@,
                decision_id@,
                text::texts(exclude@),
                table::views(bots@),
                directory@,
                traffic@,
                escalate_after_secs,
                now,
            ).0;
            got is Taken || got is Raced || got is Held ==> now.secs + ttl(q@.ttl_secs) <= 8_210_266_876_799
        }),
    ensures
        (outcome_of(res), final(s)@) == asking(
            old(s)@,
            q@,
            token@,
            decision_id@,
            text::texts(exclude@),
            table::views(bots@),
            directory@,
            traffic@,
            escalate_after_secs,
            now,
        ),
        now.named() && now.secs + 3600 <= 253_402_300_799 ==> (res matches Ok(t) ==> leases::held(
            t.lease@,
            time::iso_millis(now),
        )),
{
    let resource = q.resource;
    if !is_known_resource(resource) {
        return Err(AcquireError::UnknownResource);
    }
    if is_exclusive(resource) && !q.require_idle {
        return Err(AcquireError::IdleCheckRequired);
    }
    let life: u64 = if q.ttl_secs < 30 {
        30
    } else if q.ttl_secs > MAX_TTL_SECS {
        MAX_TTL_SECS as u64
    } else {
        q.ttl_secs as u64
    };
    let iso = time::iso(now);
    let approval = match approvals::approval(s, q.approval_id) {
        None => {
            return Err(AcquireError::NoApproval);
        },
        Some(a) => a,
    };
    if let Some(reason) = approval.refusal(iso.as_str(), resource, q.commit) {
        return Err(AcquireError::NotCovered { reason, approval });
    }
    if !text::same(approval.requester.as_str(), q.owner) {
        return Err(AcquireError::GrantedToAnother { approval });
    }
    if let Some(l) = leases::lease(s, resource) {
        let ran_out = l.released_at.is_none() && !l.held_at(iso.as_str());
        if ran_out && text::is_text(&l.approval_id, approval.id.as_str()) {
            let _ = approvals::decide_approval_from(
                s,
                iso.as_str(),
                decision_id,
                approval.id.as_str(),
                "approved",
                "consumed",
                "daemon",
                Some("lease expired"),
                None,
            );
            return Err(AcquireError::AlreadyUsed { approval, fence: l.fence });
        }
    }
    let self_bot = requester_bot_id(directory, q.owner);
    if is_exclusive(resource) {
        if let Some(excluded) = find_other(exclude, text::borrowed(&self_bot)) {
            let requester = approval.requester.clone();
            return Err(AcquireError::ExcludeNotRequester { excluded, requester, requester_bot_id: self_bot });
        }
    }
    let safety = safety_as(
        s,
        iso.as_str(),
        bots,
        exclude,
        Some(approval.id.as_str()),
        Some(q.owner),
        escalate_after_secs,
    );
    if q.require_idle && !safety.safe {
        let escalates_in = seconds_left(&safety);
        return Err(AcquireError::NotIdle { safety, escalates_in });
    }
    let end = now.later(life);
    let requested = time::iso(end);
    let expires_at = lease_deadline(requested.as_str(), text::borrowed(&approval.expires_at));
    let quiet_delivery = is_exclusive(resource);
    let excluded_self = if quiet_delivery {
        exclude_from_quiet(exclude, &self_bot)
    } else {
        None
    };
    let detail = detail_text(q.require_idle, &safety, &excluded_self);
    let ghost before = s@;
    let taken = leases::acquire_lease(
        s,
        iso.as_str(),
        token,
        decision_id,
        resource,
        q.owner,
        Some(approval.id.as_str()),
        q.commit,
        expires_at.as_str(),
        quiet_delivery,
        traffic,
        text::borrowed(&excluded_self),
        detail.as_str(),
    );
    match taken {
        Some(lease) => {
            proof {
                let base = leases::with_lease(before.leases, resource@, iso@);
                let hit = leases::free(resource@, iso@);
                let to = leases::taken(
                    q@.owner,
                    Some(approval@.id),
                    q@.commit,
                    expires_at@,
                    token@,
                    detail@,
                    iso@,
                );
                table::first_of_changed(base, leases::on(resource@), hit, to);
                table::first_is_a_hit(base, leases::on(resource@));
                let l = table::first(base, leases::on(resource@))->0;
                if hit(l) && now.named() && now.secs + 3600 <= 253_402_300_799 {
                    given_is_held(now, end, lease@, approval@.expires_at);
                }
            }
            Ok(Acquired { lease, approval, safety })
        },
        None => {
            let there = leases::lease(s, resource);
            let idle = match &there {
                Some(l) => !l.held_at(iso.as_str()),
                None => true,
            };
            if idle && traffic.delivery_critical_anywhere() {
                return Err(AcquireError::Raced);
            }
            Err(AcquireError::Held { lease: there })
        },
    }
}

// ---------------------------------------------------------------- giving a window back

/// The store after the end of a restart window: what it kept queued goes out again.
pub open spec fn closed(s: StoreView, now: Seq<char>) -> StoreView {
    StoreView {
        assignments: table::changed(s.assignments, assignments::window_held(), assignments::unheld(now)),
        ..s
    }
}

/// A restart window is over: the holds that it placed are lifted at once. How many there were.
pub fn window_closed(s: &mut Store, now: &str) -> (n: usize)
    ensures
        n as nat == assignments::let_go(old(s)@.assignments, now@).0,
        final(s)@ == closed(old(s)@, now@),
{
    assignments::clear_restart_holds(s, now)
}

/// The store after the approval behind the lease on a resource was used up.
pub open spec fn paid(s: StoreView, resource: Seq<char>, decision_id: Seq<char>, owner: Seq<char>, now: Seq<char>) -> StoreView {
    match table::first(s.leases, leases::on(resource)) {
        Some(l) => match l.approval_id {
            Some(id) => match table::first(s.approvals, approvals::with_id(id)) {
                Some(a) => if a.status == "approved"@ {
                    leases::used_up(s, id, decision_id, owner, "lease released"@, now)
                } else {
                    s
                },
                None => s,
            },
            None => s,
        },
        None => s,
    }
}

/// The leases that a release gives back.
pub open spec fn to_give_back(resource: Seq<char>, owner: Seq<char>, fence: i64, forced: bool) -> spec_fn(LeaseView) -> bool {
    if forced {
        leases::unreleased(resource)
    } else {
        leases::owned_by(resource, owner, fence)
    }
}

/// The store after a release.
pub open spec fn released(
    s: StoreView,
    resource: Seq<char>,
    owner: Seq<char>,
    fence: i64,
    forced: bool,
    decision_id: Seq<char>,
    now: Seq<char>,
) -> StoreView {
    let hit = to_give_back(resource, owner, fence, forced);
    let back = StoreView { leases: table::changed(s.leases, hit, leases::given_back(now)), ..s };
    if !table::any(s.leases, hit) {
        back
    } else {
        let done = paid(back, resource, decision_id, owner, now);
        if exclusive(resource) && window(done, now) is Free {
            closed(done, now)
        } else {
            done
        }
    }
}

/// The proof that was shown is not the one on record.
#[derive(Debug, Clone, Copy, PartialEq, Eq, Structural)]
pub struct LeaseTokenMismatch;

/// What giving a window back comes to, and the store afterwards.
pub open spec fn giving_back(
    s: StoreView,
    resource: Seq<char>,
    owner: Seq<char>,
    fence: i64,
    proof_shown: LeaseProof<'_>,
    decision_id: Seq<char>,
    now: Seq<char>,
) -> (Result<bool, LeaseTokenMismatch>, StoreView) {
    let stored = match table::first(s.leases, leases::on(resource)) {
        Some(l) => l.lease_token,
        None => None,
    };
    if leases::proof_holds(proof_shown, stored) {
        (
            Ok(table::any(s.leases, to_give_back(resource, owner, fence, proof_shown is Forced))),
            released(s, resource, owner, fence, proof_shown is Forced, decision_id, now),
        )
    } else {
        (Err(LeaseTokenMismatch), s)
    }
}

/// Give a window back and use up its approval: one yes, one window. Owner and fence can be read by
/// anybody, so the proof is looked at before anything is written.
pub fn release(
    s: &mut Store,
    now: &str,
    decision_id: &str,
    resource: &str,
    owner: &str,
    fence: i64,
    proof_shown: LeaseProof<'_>,
) -> (res: Result<bool, LeaseTokenMismatch>)
    ensures
        (res, final(s)@) == giving_back(old(s)@, resource@, owner@, fence, proof_shown, decision_id@, now@),
{
    let stored = leases::lease_token(s, resource);
    if !proof_shown.allows(text::borrowed(&stored)) {
        return Err(LeaseTokenMismatch);
    }
    let given = if proof_shown.is_forced() {
        leases::force_release_lease(s, now, resource)
    } else {
        leases::release_lease(s, now, resource, owner, fence)
    };
    if given {
        if let Some(l) = leases::lease(s, resource) {
            if let Some(id) = &l.approval_id {
                if let Some(a) = approvals::approval(s, id.as_str()) {
                    if text::same(a.status.as_str(), "approved") {
                        let ghost mid = s@;
                        let _ = approvals::decide_approval_from(
                            s,
                            now,
                            decision_id,
                            id.as_str(),
                            "approved",
                            "consumed",
                            owner,
                            Some("lease released"),
                            None,
                        );
                        assert(s@ == leases::used_up(mid, id@, decision_id@, owner@, "lease released"@, now@));
                    }
                }
            }
        }
        if is_exclusive(resource) {
            if let Ok(None) = dispatch_paused(s, now) {
                let _ = window_closed(s, now);
            }
        }
    }
    Ok(given)
}

/// The store after the daemon came up again.
pub open spec fn restarted(s: StoreView, decision_id: Seq<char>, now: Seq<char>) -> StoreView {
    let after = match table::first(s.leases, leases::on("restart"@)) {
        Some(l) => if l.released_at is None {
            released(s, "restart"@, or_empty(l.owner), l.fence, true, decision_id, now)
        } else {
            s
        },
        None => s,
    };
    closed(after, now)
}

/// A restart window was never given back.
pub open spec fn left_open(s: StoreView) -> bool {
    table::first(s.leases, leases::on("restart"@)) matches Some(l) && l.released_at is None
}

/// The daemon answering again is the end of the restart it was restarted for: a restart lease from
/// before is released and what it kept queued goes out. Whether there was one.
pub fn release_restart_on_startup(s: &mut Store, now: &str, decision_id: &str) -> (was_held: bool)
    ensures
        final(s)@ == restarted(old(s)@, decision_id@, now@),
        was_held == left_open(old(s)@),
{
    let mut was_held = false;
    proof {
        table::first_is_a_hit(s@.leases, leases::on("restart"@));
    }
    if let Some(l) = leases::lease(s, EXCLUSIVE[0]) {
        if l.released_at.is_none() {
            let owner = text_or_empty(&l.owner);
            let _ = release(s, now, decision_id, EXCLUSIVE[0], owner.as_str(), l.fence, LeaseProof::Forced);
            was_held = true;
        }
    }
    let _ = window_closed(s, now);
    was_held
}

// ---------------------------------------------------------------- laws

/// Waiting longer only ever opens: a window that is safe because everything is quiet is safe at any
/// threshold, for any owner and any approval.
pub proof fn waiting_only_opens(
    s: StoreView,
    bots: Seq<BotProbeView>,
    exclude: Seq<Seq<char>>,
    approval_id: Option<Seq<char>>,
    owner: Option<Seq<char>>,
    threshold: i64,
    now: Seq<char>,
    other_approval: Option<Seq<char>>,
    other_owner: Option<Seq<char>>,
    other_threshold: i64,
    later: Seq<char>,
)
    requires
        all_quiet(safety_of(s, bots, exclude, approval_id, owner, threshold, now)),
    ensures
        safety_of(s, bots, exclude, other_approval, other_owner, other_threshold, later).safe,
{
}

/// A window is never safe while some bot could not be looked at.
pub proof fn what_cannot_be_read_is_not_safe(
    s: StoreView,
    bots: Seq<BotProbeView>,
    exclude: Seq<Seq<char>>,
    approval_id: Option<Seq<char>>,
    owner: Option<Seq<char>>,
    threshold: i64,
    now: Seq<char>,
)
    ensures
        ({
            let v = safety_of(s, bots, exclude, approval_id, owner, threshold, now);
            v.safe ==> v.unreadable.len() == 0
        }),
{
}

proof fn gathered_has<E>(bots: Seq<BotProbeView>, f: spec_fn(BotProbeView) -> Seq<E>, i: int)
    requires
        0 <= i < bots.len(),
        f(bots[i]).len() > 0,
    ensures
        gathered(bots, f).len() > 0,
    decreases bots.len(),
{
    if i < bots.len() - 1 {
        gathered_has(bots.drop_last(), f, i);
    }
}

/// A bot whose delivery or run could not be read keeps the window shut, unless it is left out.
pub proof fn an_unreadable_bot_keeps_the_window_shut(
    s: StoreView,
    bots: Seq<BotProbeView>,
    i: int,
    exclude: Seq<Seq<char>>,
    approval_id: Option<Seq<char>>,
    owner: Option<Seq<char>>,
    threshold: i64,
    now: Seq<char>,
)
    requires
        0 <= i < bots.len(),
        !exclude.contains(bots[i].id),
        bots[i].delivering is Unreadable || bots[i].run is Unreadable || run_turn(bots[i]) is Unreadable,
    ensures
        !safety_of(s, bots, exclude, approval_id, owner, threshold, now).safe,
{
    gathered_has(bots, unreadable_in(exclude), i);
}

/// A working bot keeps the window shut until the approval has waited long enough.
pub proof fn a_working_bot_keeps_the_window_shut(
    s: StoreView,
    bots: Seq<BotProbeView>,
    i: int,
    exclude: Seq<Seq<char>>,
    approval_id: Option<Seq<char>>,
    owner: Option<Seq<char>>,
    threshold: i64,
    now: Seq<char>,
)
    requires
        0 <= i < bots.len(),
        !exclude.contains(bots[i].id),
        is_at(bots[i], "working"@),
        !safety_of(s, bots, exclude, approval_id, owner, threshold, now).escalated,
    ensures
        !safety_of(s, bots, exclude, approval_id, owner, threshold, now).safe,
{
    gathered_has(bots, working_in(exclude, supervisor_bot(s)), i);
}

/// A prompt that is on its way into a busy pane keeps the window shut however long the wait was.
pub proof fn a_delivery_into_a_busy_pane_keeps_the_window_shut(
    s: StoreView,
    bots: Seq<BotProbeView>,
    i: int,
    j: int,
    exclude: Seq<Seq<char>>,
    approval_id: Option<Seq<char>>,
    owner: Option<Seq<char>>,
    threshold: i64,
    now: Seq<char>,
)
    requires
        0 <= i < bots.len(),
        !exclude.contains(bots[i].id),
        bots[i].delivering is At,
        0 <= j < bots.len(),
        !exclude.contains(bots[j].id),
        is_at(bots[j], "working"@),
    ensures
        !safety_of(s, bots, exclude, approval_id, owner, threshold, now).safe,
{
    gathered_has(bots, delivering_in(exclude), i);
    gathered_has(bots, working_in(exclude, supervisor_bot(s)), j);
}

/// One's own lease does not stand in the way of oneself: where nobody else holds one, leases keep
/// nothing shut.
pub proof fn ones_own_lease_is_no_obstacle(s: StoreView, owner: Seq<char>, now: Seq<char>)
    requires
        table::first(s.leases, leases::on("rebuild"@)) matches Some(l) ==> leases::held(l, now) ==> l.owner == Some(owner),
        table::first(s.leases, leases::on("restart"@)) matches Some(l) ==> leases::held(l, now) ==> l.owner == Some(owner),
    ensures
        !held_by_another(held_now(s, Some(owner), now)),
{
}

/// Asked without a name, every lease that is held stands in the way.
pub proof fn without_a_name_every_lease_counts(s: StoreView, now: Seq<char>)
    ensures
        held_by_another(held_now(s, None, now)) <==> held_now(s, None, now).len() > 0,
{
    let held = held_now(s, None, now);
    if held.len() > 0 {
        assert(!held[0].own);
    }
}

/// A lease does not outlive the approval it rests on.
pub proof fn a_lease_ends_with_its_approval(requested: Seq<char>, expires_at: Seq<char>)
    ensures
        !time::ts_before(expires_at, deadline(requested, Some(expires_at))),
{
    match time::rfc3339(expires_at) {
        Some(x) => {},
        None => {
            text::text_order_is_strict(expires_at, expires_at);
        },
    }
}

/// Only a restart keeps work out: what becomes of any other lease does not change the fence.
pub proof fn a_rebuild_pauses_nothing(s: StoreView, leases_after: Seq<LeaseView>, now: Seq<char>)
    requires
        table::first(leases_after, leases::on("restart"@)) == table::first(s.leases, leases::on("restart"@)),
    ensures
        window(StoreView { leases: leases_after, ..s }, now) == window(s, now),
{
}

/// A held window ends by itself: once its end has come it is free, with nobody to clean up.
pub proof fn a_window_ends_by_itself(l: LeaseView, now: Seq<char>)
    requires
        l.expires_at is Some,
        time::rfc3339(l.expires_at->0) is Some,
        !time::ts_before(now, l.expires_at->0),
    ensures
        window_of(Some(l), now) is Free,
{
}

/// A lease that is not released and has no readable end is never taken for gone.
pub proof fn an_unreadable_window_is_not_free(l: LeaseView, now: Seq<char>)
    requires
        l.released_at is None,
        l.expires_at is None || time::rfc3339(l.expires_at->0) is None,
    ensures
        window_of(Some(l), now) is Unreadable,
{
}

/// After a restart no window is left over and nothing is kept queued by one.
pub proof fn a_restart_ends_its_window(s: StoreView, decision_id: Seq<char>, now: Seq<char>, later: Seq<char>)
    ensures
        window(restarted(s, decision_id, now), later) is Free,
        !table::any(restarted(s, decision_id, now).assignments, assignments::window_held()),
{
    let on = leases::on("restart"@);
    let l = table::first(s.leases, on);
    let hit = leases::unreleased("restart"@);
    let to = leases::given_back(now);
    table::first_is_a_hit(s.leases, on);
    if l is Some && l->0.released_at is None {
        let i = choose|i: int| 0 <= i < s.leases.len() && on(#[trigger] s.leases[i]) && s.leases[i] == l->0;
        assert(hit(s.leases[i]));
        table::first_of_changed(s.leases, on, hit, to);
    }
    let after = match l {
        Some(l) => if l.released_at is None {
            released(s, "restart"@, or_empty(l.owner), l.fence, true, decision_id, now)
        } else {
            s
        },
        None => s,
    };
    let rows = after.assignments;
    let done = restarted(s, decision_id, now).assignments;
    assert forall|i: int| 0 <= i < done.len() implies !(assignments::window_held())(#[trigger] done[i]) by {
        assert(done[i] == if (assignments::window_held())(rows[i]) {
            (assignments::unheld(now))(rows[i])
        } else {
            rows[i]
        });
    }
}

/// A forced release of the restart window frees it and lets out what it kept queued.
pub proof fn a_released_window_is_over(
    s: StoreView,
    owner: Seq<char>,
    fence: i64,
    decision_id: Seq<char>,
    now: Seq<char>,
    later: Seq<char>,
)
    requires
        table::any(s.leases, leases::unreleased("restart"@)),
    ensures
        window(released(s, "restart"@, owner, fence, true, decision_id, now), later) is Free,
{
    let on = leases::on("restart"@);
    let hit = leases::unreleased("restart"@);
    table::first_of_changed(s.leases, on, hit, leases::given_back(now));
    table::first_is_a_hit(s.leases, on);
}

/// One yes, one window: an approval whose window ran out opens no second one.
pub proof fn one_approval_one_window(
    s: StoreView,
    q: WindowRequestView,
    token: Seq<char>,
    decision_id: Seq<char>,
    exclude: Seq<Seq<char>>,
    bots: Seq<BotProbeView>,
    directory: DirectoryView,
    traffic: TrafficView,
    threshold: i64,
    now: Instant,
)
    requires
        spent(
            table::first(s.leases, leases::on(q.resource)),
            q.approval_id,
            time::iso_millis(now),
        ),
    ensures
        !(asking(s, q, token, decision_id, exclude, bots, directory, traffic, threshold, now).0 is Taken),
{
    table::first_is_a_hit(s.approvals, approvals::with_id(q.approval_id));
}

/// A window is given only on an approval that is good for this resource and commit, to the one it was
/// granted to.
pub proof fn a_window_needs_an_approval(
    s: StoreView,
    q: WindowRequestView,
    token: Seq<char>,
    decision_id: Seq<char>,
    exclude: Seq<Seq<char>>,
    bots: Seq<BotProbeView>,
    directory: DirectoryView,
    traffic: TrafficView,
    threshold: i64,
    now: Instant,
)
    ensures
        asking(s, q, token, decision_id, exclude, bots, directory, traffic, threshold, now).0 is Taken ==> {
            let found = table::first(s.approvals, approvals::with_id(q.approval_id));
            &&& known_resource(q.resource)
            &&& found is Some
            &&& approvals::unusable(found->0, time::iso_millis(now), q.resource, q.commit) is None
            &&& found->0.requester == q.owner
        },
{
}

/// A restart window is given only when it is safe, no prompt of another bot is being delivered at that
/// very moment, and no bot but the requester's own was left out.
pub proof fn a_restart_needs_quiet(
    s: StoreView,
    q: WindowRequestView,
    token: Seq<char>,
    decision_id: Seq<char>,
    exclude: Seq<Seq<char>>,
    bots: Seq<BotProbeView>,
    directory: DirectoryView,
    traffic: TrafficView,
    threshold: i64,
    now: Instant,
)
    requires
        q.resource == "restart"@,
    ensures
        ({
            let got = asking(s, q, token, decision_id, exclude, bots, directory, traffic, threshold, now).0;
            let me = requester_bot(directory, q.owner);
            got matches Outcome::Taken { lease, approval, safety } ==> {
                &&& safety.safe
                &&& !table::any(traffic.turns, leases::critical_except(traffic.runs, left_out(exclude, me)))
                &&& forall|i: int| 0 <= i < exclude.len() ==> Some(#[trigger] exclude[i]) == me
            }
        }),
{
    let me = requester_bot(directory, q.owner);
    let hit = |id: Seq<char>| Some(id) != me;
    table::first_is_a_hit(exclude, hit);
    if first_other(exclude, me) is None {
        assert forall|i: int| 0 <= i < exclude.len() implies Some(#[trigger] exclude[i]) == me by {
            if hit(exclude[i]) {
                assert(table::any(exclude, hit));
            }
        }
    }
}

/// While a window is held, nobody else is given it.
pub proof fn a_held_window_is_not_given(
    s: StoreView,
    q: WindowRequestView,
    token: Seq<char>,
    decision_id: Seq<char>,
    exclude: Seq<Seq<char>>,
    bots: Seq<BotProbeView>,
    directory: DirectoryView,
    traffic: TrafficView,
    threshold: i64,
    now: Instant,
    i: int,
)
    requires
        leases::resources_are_unique(s.leases),
        0 <= i < s.leases.len(),
        s.leases[i].resource == q.resource,
        leases::held(s.leases[i], time::iso_millis(now)),
    ensures
        !(asking(s, q, token, decision_id, exclude, bots, directory, traffic, threshold, now).0 is Taken),
{
    let me = requester_bot(directory, q.owner);
    let quiet = exclusive(q.resource);
    let excluded_self = if quiet {
        left_out(exclude, me)
    } else {
        None
    };
    leases::a_held_lease_cannot_be_taken(
        s.leases,
        i,
        q.resource,
        time::iso_millis(now),
        quiet,
        traffic,
        excluded_self,
    );
}

/// A refusal with a detail says why before anything else.
pub proof fn a_refusal_says_why(o: Outcome, owner: Seq<char>, commit: Option<Seq<char>>, now: Instant)
    ensures
        refusal_members(o, owner, commit, now) matches Some(m) ==> m.len() > 0 && m[0].0 == "reason"@ && m[0].1 is Str,
        refusal_members(o, owner, commit, now) is None <==> (o is UnknownResource || o is IdleCheckRequired || o is NoApproval
            || o is Taken),
{
}

proof fn taking_is_acquiring(
    s: StoreView,
    q: WindowRequestView,
    approval: ApprovalView,
    safety: SafetyReportView,
    token: Seq<char>,
    decision_id: Seq<char>,
    me: Option<Seq<char>>,
    exclude: Seq<Seq<char>>,
    traffic: TrafficView,
    now: Instant,
)
    requires
        leases::resources_are_unique(s.leases),
    ensures
        ({
            let iso = time::iso_millis(now);
            let (got, after) = taking(s, q, approval, safety, token, decision_id, me, exclude, traffic, now);
            let was = table::first(s.leases, leases::on(q.resource));
            let is_held = was is Some && was->0.released_at is None && was->0.expires_at is Some && time::ts_before(
                iso,
                was->0.expires_at->0,
            );
            let restart = q.resource == "restart"@;
            let left = if me is Some && exclude.contains(me->0) {
                me
            } else {
                None
            };
            let busy = exists|k: int|
                0 <= k < traffic.turns.len() && (leases::critical_except(traffic.runs, left))(#[trigger] traffic.turns[k]);
            &&& got is Taken <==> !is_held && !(restart && busy)
            &&& got is Taken || got is Raced || got is Held
            &&& got matches Outcome::Taken { lease, approval: a, safety: v } ==> {
                &&& a == approval
                &&& v == safety
                &&& lease == (LeaseView {
                    resource: q.resource,
                    owner: Some(q.owner),
                    approval_id: Some(approval.id),
                    fence: if was is None {
                        1i64
                    } else if was->0.fence < i64::MAX {
                        (was->0.fence + 1) as i64
                    } else {
                        i64::MAX
                    },
                    target_commit: q.commit,
                    acquired_at: Some(iso),
                    expires_at: Some(given_until(q, approval, now)),
                    released_at: None,
                    lease_token: Some(token),
                    detail_json: lease.detail_json,
                })
                &&& table::first(after.leases, leases::on(q.resource)) == Some(lease)
            }
            &&& forall|i: int|
                0 <= i < s.leases.len() && (!(got is Taken) || (#[trigger] s.leases[i]).resource != q.resource)
                    ==> after.leases[i] == s.leases[i]
            &&& after == (StoreView {
                leases: after.leases,
                approvals: after.approvals,
                decisions: after.decisions,
                ..s
            })
            &&& !(got is Taken) ==> after.approvals == s.approvals && after.decisions == s.decisions
        }),
{
    let quiet = exclusive(q.resource);
    let excluded_self = if quiet {
        left_out(exclude, me)
    } else {
        None
    };
    leases::a_lease_that_is_taken_is_the_askers(
        s,
        time::iso_millis(now),
        token,
        decision_id,
        q.resource,
        q.owner,
        Some(approval.id),
        q.commit,
        given_until(q, approval, now),
        quiet,
        traffic,
        excluded_self,
        lease_detail(q.require_idle, safety, excluded_self),
    );
}

/// A window ends when it was asked to, but not later than the approval it rests on. What is asked for
/// counts from now, and is taken for at least half a minute and at most an hour: where the approval has no
/// end the lease ends exactly then, and otherwise at the earlier of the two.
pub proof fn a_window_does_not_outlive_its_approval(
    s: StoreView,
    q: WindowRequestView,
    token: Seq<char>,
    decision_id: Seq<char>,
    exclude: Seq<Seq<char>>,
    bots: Seq<BotProbeView>,
    directory: DirectoryView,
    traffic: TrafficView,
    threshold: i64,
    now: Instant,
)
    requires
        leases::resources_are_unique(s.leases),
        now.valid(),
        now.secs + 3600 <= 8_210_266_876_799,
    ensures
        ({
            let got = asking(s, q, token, decision_id, exclude, bots, directory, traffic, threshold, now).0;
            let life: int = if q.ttl_secs < 30 {
                30
            } else if q.ttl_secs > 3600 {
                3600
            } else {
                q.ttl_secs as int
            };
            let asked = time::iso_millis(
                Instant { secs: (now.secs + life) as i64, nanos: (now.nanos as int % 1_000_000_000) as u32 },
            );
            got matches Outcome::Taken { lease, approval, safety } ==> {
                let end = lease.expires_at->0;
                &&& lease.expires_at is Some
                &&& !time::ts_before(asked, end)
                &&& approval.expires_at is None ==> end == asked
                &&& approval.expires_at is Some ==> {
                    &&& !time::ts_before(approval.expires_at->0, end)
                    &&& end == asked || end == approval.expires_at->0
                    &&& time::ts_before(approval.expires_at->0, asked) ==> end == approval.expires_at->0
                    &&& time::ts_before(asked, approval.expires_at->0) ==> end == asked
                }
            }
        }),
{
    let iso = time::iso_millis(now);
    let approval = table::first(s.approvals, approvals::with_id(q.approval_id))->0;
    let safety = safety_of(s, bots, exclude, Some(approval.id), Some(q.owner), threshold, iso);
    taking_is_acquiring(
        supervisor::initialised(s, iso),
        q,
        approval,
        safety,
        token,
        decision_id,
        requester_bot(directory, q.owner),
        exclude,
        traffic,
        now,
    );
    let asked = time::iso_millis(now.plus(ttl(q.ttl_secs)));
    text::text_order_is_strict(asked, asked);
    if approval.expires_at is Some {
        text::text_order_is_strict(approval.expires_at->0, asked);
        text::text_order_is_strict(approval.expires_at->0, approval.expires_at->0);
    }
}

/// A window that is given is the asker's: on the resource, under the name, on the approval and for the
/// commit that were asked for, from now, not given back, with the token that was handed in and a fence one
/// above the last. It is what is on record for the resource; the lease of no other resource changes, and
/// nothing else in the store does but the row of the manager and the approval of a window that ran out.
pub proof fn a_window_that_is_given_is_the_askers(
    s: StoreView,
    q: WindowRequestView,
    token: Seq<char>,
    decision_id: Seq<char>,
    exclude: Seq<Seq<char>>,
    bots: Seq<BotProbeView>,
    directory: DirectoryView,
    traffic: TrafficView,
    threshold: i64,
    now: Instant,
)
    requires
        leases::resources_are_unique(s.leases),
    ensures
        ({
            let iso = time::iso_millis(now);
            let (got, after) = asking(s, q, token, decision_id, exclude, bots, directory, traffic, threshold, now);
            let was = table::first(s.leases, leases::on(q.resource));
            got matches Outcome::Taken { lease, approval, safety } ==> {
                &&& lease.resource == q.resource
                &&& lease.owner == Some(q.owner)
                &&& lease.approval_id == Some(q.approval_id)
                &&& lease.target_commit == q.commit
                &&& lease.acquired_at == Some(iso)
                &&& lease.released_at is None
                &&& lease.lease_token == Some(token)
                &&& was is None ==> lease.fence == 1
                &&& was is Some && was->0.fence < i64::MAX ==> lease.fence == was->0.fence + 1
                &&& table::first(after.leases, leases::on(q.resource)) == Some(lease)
                &&& forall|i: int|
                    0 <= i < s.leases.len() && (#[trigger] s.leases[i]).resource != q.resource ==> after.leases[i]
                        == s.leases[i]
                &&& approval.id == q.approval_id
                &&& s.approvals.contains(approval)
                &&& s.supervisor is Some ==> after.supervisor == s.supervisor
                &&& after == (StoreView {
                    supervisor: after.supervisor,
                    leases: after.leases,
                    approvals: after.approvals,
                    decisions: after.decisions,
                    ..s
                })
            }
        }),
{
    let iso = time::iso_millis(now);
    let found = table::first(s.approvals, approvals::with_id(q.approval_id));
    let approval = found->0;
    table::first_is_a_hit(s.approvals, approvals::with_id(q.approval_id));
    let safety = safety_of(s, bots, exclude, Some(approval.id), Some(q.owner), threshold, iso);
    taking_is_acquiring(
        supervisor::initialised(s, iso),
        q,
        approval,
        safety,
        token,
        decision_id,
        requester_bot(directory, q.owner),
        exclude,
        traffic,
        now,
    );
}

/// A window is given exactly when everything is in order: the resource is one that there is, a restart does
/// not skip the idle check, the approval is there, approved, not over, for this resource and this commit
/// and granted to the one who asks, it has not opened a window before that ran out, no bot but the asker's
/// own is left out of a restart, it is safe where that is asked, nobody holds the window, and no prompt of
/// another bot is on its way into a pane that a restart would interrupt.
pub proof fn a_window_is_given_exactly_when_it_is_owed(
    s: StoreView,
    q: WindowRequestView,
    token: Seq<char>,
    decision_id: Seq<char>,
    exclude: Seq<Seq<char>>,
    bots: Seq<BotProbeView>,
    directory: DirectoryView,
    traffic: TrafficView,
    threshold: i64,
    now: Instant,
)
    requires
        leases::resources_are_unique(s.leases),
    ensures
        ({
            let iso = time::iso_millis(now);
            let got = asking(s, q, token, decision_id, exclude, bots, directory, traffic, threshold, now).0;
            let found = table::first(s.approvals, approvals::with_id(q.approval_id));
            let a = found->0;
            let lease = table::first(s.leases, leases::on(q.resource));
            let l = lease->0;
            let running = lease is Some && l.released_at is None && l.expires_at is Some && time::ts_before(
                iso,
                l.expires_at->0,
            );
            let restart = q.resource == "restart"@;
            let me = requester_bot(directory, q.owner);
            let safety = safety_of(s, bots, exclude, Some(q.approval_id), Some(q.owner), threshold, iso);
            let left = if me is Some && exclude.contains(me->0) {
                me
            } else {
                None
            };
            let busy = exists|k: int|
                0 <= k < traffic.turns.len() && (leases::critical_except(traffic.runs, left))(#[trigger] traffic.turns[k]);
            got is Taken <==> {
                &&& q.resource == "rebuild"@ || restart
                &&& restart ==> q.require_idle
                &&& found is Some
                &&& a.status == "approved"@
                &&& a.expires_at is Some ==> time::ts_before(iso, a.expires_at->0)
                &&& a.purpose == q.resource
                &&& a.target_commit is Some ==> a.target_commit == q.commit
                &&& a.requester == q.owner
                &&& !(lease is Some && l.released_at is None && !running && l.approval_id == Some(a.id))
                &&& restart ==> forall|i: int| 0 <= i < exclude.len() ==> Some(#[trigger] exclude[i]) == me
                &&& q.require_idle ==> safety.safe
                &&& !running
                &&& !(restart && busy)
            }
        }),
{
    let iso = time::iso_millis(now);
    let found = table::first(s.approvals, approvals::with_id(q.approval_id));
    let approval = found->0;
    table::first_is_a_hit(s.approvals, approvals::with_id(q.approval_id));
    let me = requester_bot(directory, q.owner);
    let safety = safety_of(s, bots, exclude, Some(approval.id), Some(q.owner), threshold, iso);
    taking_is_acquiring(
        supervisor::initialised(s, iso),
        q,
        approval,
        safety,
        token,
        decision_id,
        me,
        exclude,
        traffic,
        now,
    );
    let hit = |id: Seq<char>| Some(id) != me;
    table::first_is_a_hit(exclude, hit);
    if first_other(exclude, me) is None {
        assert forall|i: int| 0 <= i < exclude.len() implies Some(#[trigger] exclude[i]) == me by {
            if hit(exclude[i]) {
                assert(table::any(exclude, hit));
            }
        }
    } else {
        let i = choose|i: int| 0 <= i < exclude.len() && hit(#[trigger] exclude[i]);
        assert(Some(exclude[i]) != me);
    }
    approvals::an_approval_is_refused_for_its_first_fault(approval, iso, q.resource, q.commit);
}

/// Who is refused a window leaves every lease as it is; and every approval too, but for the one whose
/// window ran out without being given back, which is used up.
pub proof fn a_refusal_takes_nothing(
    s: StoreView,
    q: WindowRequestView,
    token: Seq<char>,
    decision_id: Seq<char>,
    exclude: Seq<Seq<char>>,
    bots: Seq<BotProbeView>,
    directory: DirectoryView,
    traffic: TrafficView,
    threshold: i64,
    now: Instant,
)
    requires
        leases::resources_are_unique(s.leases),
    ensures
        ({
            let (got, after) = asking(s, q, token, decision_id, exclude, bots, directory, traffic, threshold, now);
            !(got is Taken) ==> {
                &&& forall|i: int| 0 <= i < s.leases.len() ==> after.leases[i] == #[trigger] s.leases[i]
                &&& !(got is AlreadyUsed) ==> after.approvals == s.approvals && after.decisions == s.decisions
                &&& s.supervisor is Some ==> after.supervisor == s.supervisor
                &&& after == (StoreView {
                    supervisor: after.supervisor,
                    leases: after.leases,
                    approvals: after.approvals,
                    decisions: after.decisions,
                    ..s
                })
            }
        }),
{
    let iso = time::iso_millis(now);
    let approval = table::first(s.approvals, approvals::with_id(q.approval_id))->0;
    let safety = safety_of(s, bots, exclude, Some(approval.id), Some(q.owner), threshold, iso);
    taking_is_acquiring(
        supervisor::initialised(s, iso),
        q,
        approval,
        safety,
        token,
        decision_id,
        requester_bot(directory, q.owner),
        exclude,
        traffic,
        now,
    );
}

/// Each refusal comes for its own reason, the first in order that there is.
pub proof fn each_refusal_has_its_reason(
    s: StoreView,
    q: WindowRequestView,
    token: Seq<char>,
    decision_id: Seq<char>,
    exclude: Seq<Seq<char>>,
    bots: Seq<BotProbeView>,
    directory: DirectoryView,
    traffic: TrafficView,
    threshold: i64,
    now: Instant,
)
    ensures
        ({
            let iso = time::iso_millis(now);
            let got = asking(s, q, token, decision_id, exclude, bots, directory, traffic, threshold, now).0;
            let found = table::first(s.approvals, approvals::with_id(q.approval_id));
            let a = found->0;
            let known = q.resource == "rebuild"@ || q.resource == "restart"@;
            let skipped = q.resource == "restart"@ && !q.require_idle;
            let why = approvals::unusable(a, iso, q.resource, q.commit);
            let lease = table::first(s.leases, leases::on(q.resource));
            let ran_out = lease is Some && lease->0.released_at is None && !(lease->0.expires_at is Some && time::ts_before(
                iso,
                lease->0.expires_at->0,
            )) && lease->0.approval_id == Some(a.id);
            let safety = safety_of(s, bots, exclude, Some(a.id), Some(q.owner), threshold, iso);
            &&& got is UnknownResource <==> !known
            &&& got is IdleCheckRequired <==> known && skipped
            &&& got is NoApproval <==> known && !skipped && found is None
            &&& got is NotCovered <==> known && !skipped && found is Some && why is Some
            &&& (got matches Outcome::NotCovered { reason, approval } ==> reason == why->0 && approval == a)
            &&& got is GrantedToAnother <==> known && !skipped && found is Some && why is None && a.requester != q.owner
            &&& (got matches Outcome::GrantedToAnother { approval } ==> approval == a)
            &&& got is AlreadyUsed <==> known && !skipped && found is Some && why is None && a.requester == q.owner && ran_out
            &&& (got matches Outcome::AlreadyUsed { approval, fence } ==> approval == a && fence == lease->0.fence)
            &&& (got matches Outcome::ExcludeNotRequester { excluded, requester, requester_bot_id } ==> {
                &&& q.resource == "restart"@
                &&& exclude.contains(excluded)
                &&& requester == a.requester
                &&& requester_bot_id == requester_bot(directory, q.owner)
                &&& requester_bot_id != Some(excluded)
            })
            &&& (got matches Outcome::NotIdle { safety: v, escalates_in: left } ==> {
                &&& q.require_idle
                &&& v == safety
                &&& !v.safe
                &&& left is Some ==> v.escalation is Some && left->0 == v.escalate_after_secs - v.escalation->0.waited_secs
                &&& left is None ==> v.escalation is None || v.escalation->0.waited_secs >= v.escalate_after_secs
            })
        }),
{
    let me = requester_bot(directory, q.owner);
    let hit = |id: Seq<char>| Some(id) != me;
    table::first_is_a_hit(exclude, hit);
    let approval = table::first(s.approvals, approvals::with_id(q.approval_id))->0;
    escalation_is_not_negative(s, Some(approval.id), threshold, time::iso_millis(now));
}

proof fn escalation_is_not_negative(s: StoreView, approval_id: Option<Seq<char>>, threshold: i64, now: Seq<char>)
    ensures
        escalation_of(s, approval_id, threshold, now) matches Some(e) ==> e.waited_secs >= 0,
{
}

proof fn gathered_none<E>(bots: Seq<BotProbeView>, f: spec_fn(BotProbeView) -> Seq<E>)
    ensures
        gathered(bots, f).len() == 0 <==> forall|i: int| 0 <= i < bots.len() ==> f(#[trigger] bots[i]).len() == 0,
    decreases bots.len(),
{
    if bots.len() > 0 {
        let front = bots.drop_last();
        gathered_none(front, f);
        if gathered(bots, f).len() == 0 {
            assert forall|i: int| 0 <= i < bots.len() implies f(#[trigger] bots[i]).len() == 0 by {
                if i < front.len() {
                    assert(front[i] == bots[i]);
                }
            }
        } else if gathered(front, f).len() > 0 {
            let i = choose|i: int| 0 <= i < front.len() && f(#[trigger] front[i]).len() != 0;
            assert(f(bots[i]).len() != 0);
        } else {
            assert(f(bots[bots.len() - 1]).len() != 0);
        }
    }
}

/// A window is safe exactly when every bot that is not left out could be looked at, and either none of them
/// works or is in the middle of a turn, or the approval has waited long enough, no prompt is being
/// delivered to any of them and nobody else holds a lease.
pub proof fn a_window_is_safe_exactly_when_nothing_is_lost(
    s: StoreView,
    bots: Seq<BotProbeView>,
    exclude: Seq<Seq<char>>,
    approval_id: Option<Seq<char>>,
    owner: Option<Seq<char>>,
    threshold: i64,
    now: Seq<char>,
)
    ensures
        ({
            let v = safety_of(s, bots, exclude, approval_id, owner, threshold, now);
            let counts = |b: BotProbeView| !exclude.contains(b.id);
            let turn = |b: BotProbeView| match b.run {
                RunSeenView::Live { agent_status, in_flight } => in_flight,
                _ => TurnSeenView::Quiet,
            };
            let works = |b: BotProbeView| match b.run {
                RunSeenView::Live { agent_status, in_flight } => agent_status == "working"@,
                _ => false,
            };
            let blind = forall|i: int|
                0 <= i < bots.len() && counts(#[trigger] bots[i]) ==> !(bots[i].delivering is Unreadable) && !(
                bots[i].run is Unreadable) && !(turn(bots[i]) is Unreadable);
            let idle = forall|i: int|
                0 <= i < bots.len() && counts(#[trigger] bots[i]) ==> !works(bots[i]) && !(turn(bots[i]) is At);
            let settled = forall|i: int| 0 <= i < bots.len() && counts(#[trigger] bots[i]) ==> !(bots[i].delivering is At);
            let stands_aside = |resource: Seq<char>| match table::first(s.leases, leases::on(resource)) {
                Some(l) => l.released_at is Some || l.expires_at is None || !time::ts_before(now, l.expires_at->0) || (owner
                    is Some && l.owner == owner),
                None => true,
            };
            &&& v.safe <==> blind && (idle || (v.escalated && settled && stands_aside("rebuild"@) && stands_aside(
                "restart"@,
            )))
            &&& v.escalated <==> v.escalation is Some && v.escalation->0.waited_secs >= threshold
            &&& v.owner == owner && v.escalate_after_secs == threshold && v.checked_at == now
        }),
{
    gathered_none(bots, delivering_in(exclude));
    gathered_none(bots, working_in(exclude, supervisor_bot(s)));
    gathered_none(bots, in_flight_in(exclude));
    gathered_none(bots, unreadable_in(exclude));
    let v = safety_of(s, bots, exclude, approval_id, owner, threshold, now);
    let a = held_on(s, "rebuild"@, owner, now);
    let b = held_on(s, "restart"@, owner, now);
    if a.len() > 0 {
        assert((a + b)[0] == a[0]);
    }
    if b.len() > 0 {
        assert((a + b)[a.len() as int] == b[0]);
    }
    assert forall|i: int| 0 <= i < bots.len() implies {
        let x = #[trigger] bots[i];
        &&& (working_in(exclude, supervisor_bot(s)))(x).len() == 0 <==> exclude.contains(x.id) || !is_at(x, "working"@)
        &&& (in_flight_in(exclude))(x).len() == 0 <==> exclude.contains(x.id) || !(run_turn(x) is At)
        &&& (delivering_in(exclude))(x).len() == 0 <==> exclude.contains(x.id) || !(x.delivering is At)
        &&& (unreadable_in(exclude))(x).len() == 0 <==> exclude.contains(x.id) || (!(x.delivering is Unreadable) && !(
        x.run is Unreadable) && !(run_turn(x) is Unreadable))
    } by {
    }
}

/// The wait that counts is that of the approval that is named, and of no other: while it is approved, for a
/// window, and not over. It is counted in whole seconds from its decision, or from the earlier moment that
/// it took over; what cannot be read, or lies ahead, is no wait.
pub proof fn only_the_named_approval_has_waited(s: StoreView, id: Seq<char>, threshold: i64, now: Seq<char>)
    ensures
        ({
            let e = escalation_of(s, Some(id), threshold, now);
            let found = table::first(s.approvals, approvals::with_id(id));
            let a = found->0;
            let since = if a.wait_since is Some && time::ts_before(a.wait_since->0, a.decided_at->0) {
                a.wait_since->0
            } else {
                a.decided_at->0
            };
            let from = time::rfc3339(since);
            let to = time::rfc3339(now);
            &&& e is Some <==> found is Some && a.status == "approved"@ && (a.purpose == "rebuild"@ || a.purpose
                == "restart"@) && (a.expires_at is Some ==> time::ts_before(now, a.expires_at->0)) && a.decided_at is Some
            &&& e is Some ==> {
                &&& e->0.approval_id == id
                &&& e->0.escalated == (e->0.waited_secs >= threshold)
                &&& from is None || to is None ==> e->0.waited_secs == 0
                &&& from is Some && to is Some && time::whole_seconds(from->0, to->0) > 0 ==> e->0.waited_secs
                    == time::whole_seconds(from->0, to->0)
                &&& from is Some && to is Some && time::whole_seconds(from->0, to->0) <= 0 ==> e->0.waited_secs == 0
            }
        }),
{
    table::first_is_a_hit(s.approvals, approvals::with_id(id));
}

/// The threshold is half an hour, unless a positive number of minutes is set.
pub proof fn the_threshold_is_half_an_hour_unless_set(raw: Option<Seq<char>>)
    ensures
        raw is None ==> escalate_mins(raw) == 30,
        raw is Some && text::integer_64(text::trimmed(raw->0)) is None ==> escalate_mins(raw) == 30,
        raw is Some && (text::integer_64(text::trimmed(raw->0)) matches Some(m) && m <= 0) ==> escalate_mins(raw) == 30,
        raw is Some && (text::integer_64(text::trimmed(raw->0)) matches Some(m) && m > 0) ==> escalate_mins(raw)
            == text::integer_64(text::trimmed(raw->0))->0,
{
}

/// The bot of somebody who asks is the one with that id; or else a live one of that name; or else that of
/// a running agent of that name, the one that was started last. A blank name is nobody's.
pub proof fn a_requester_is_known_by_id_then_name_then_agent(d: DirectoryView, owner: Seq<char>)
    ensures
        ({
            let name = text::trimmed(owner);
            let got = requester_bot(d, owner);
            let by_id = exists|i: int| 0 <= i < d.bots.len() && (#[trigger] d.bots[i]).id == name;
            let by_name = exists|i: int| 0 <= i < d.bots.len() && (#[trigger] d.bots[i]).live && d.bots[i].name == name;
            &&& name.len() == 0 ==> got is None
            &&& name.len() > 0 && by_id ==> got == Some(name)
            &&& name.len() > 0 && !by_id && by_name ==> got is Some && exists|i: int|
                0 <= i < d.bots.len() && (#[trigger] d.bots[i]).live && d.bots[i].name == name && d.bots[i].id == got->0
            &&& name.len() > 0 && !by_id && !by_name && got is Some ==> exists|i: int|
                0 <= i < d.runs.len() && (#[trigger] d.runs[i]).agent_name == Some(name) && d.runs[i].state == "running"@
                    && d.runs[i].bot_id == got->0
        }),
{
    let name = text::trimmed(owner);
    let id = bot_with_id(name);
    let named = bot_named(name);
    let agent = agent_named(name);
    table::first_is_a_hit(d.bots, named);
    if table::any(d.bots, id) {
        let i = choose|i: int| 0 <= i < d.bots.len() && id(#[trigger] d.bots[i]);
        assert(d.bots[i].id == name);
    } else {
        assert forall|i: int| 0 <= i < d.bots.len() implies (#[trigger] d.bots[i]).id != name by {
            assert(!id(d.bots[i]));
        }
    }
    if table::any(d.bots, named) {
        let i = choose|i: int| 0 <= i < d.bots.len() && named(#[trigger] d.bots[i]);
        assert(d.bots[i].live && d.bots[i].name == name);
    } else {
        assert forall|i: int| 0 <= i < d.bots.len() implies !((#[trigger] d.bots[i]).live && d.bots[i].name == name) by {
            assert(!named(d.bots[i]));
        }
    }
    let rows = d.runs.filter(agent);
    let running = table::ordered(rows, started_later());
    if running.len() > 0 {
        assert(running.contains(running[0]));
        table::ordering_keeps_each_row(rows, started_later(), running[0]);
        table::selecting_takes_each_hit(d.runs, agent, running[0]);
        let m = choose|m: int| 0 <= m < d.runs.len() && d.runs[m] == running[0];
        assert(agent(d.runs[m]));
    }
}

/// A window is given back by the one whose name and fence are on it, or by force; nobody else changes
/// anything. Then the lease says that it was given back, and only that; the approval it rested on is used
/// up, under the name of the one who gave it back; and with a restart window every assignment that it kept
/// queued is let go. Nothing else in the store changes.
pub proof fn a_window_is_given_back_by_its_holder(
    s: StoreView,
    resource: Seq<char>,
    owner: Seq<char>,
    fence: i64,
    forced: bool,
    decision_id: Seq<char>,
    now: Seq<char>,
    l: LeaseView,
    i: int,
    j: int,
    k: int,
)
    requires
        leases::resources_are_unique(s.leases),
        table::first(s.leases, leases::on(resource)) == Some(l),
        forall|d: int| 0 <= d < s.decisions.len() ==> (#[trigger] s.decisions[d]).id != decision_id,
        0 <= i < s.leases.len(),
        0 <= j < s.approvals.len(),
        0 <= k < s.assignments.len(),
    ensures
        ({
            let after = released(s, resource, owner, fence, forced, decision_id, now);
            let mine = l.released_at is None && (forced || (l.owner == Some(owner) && l.fence == fence));
            let was = s.approvals[j];
            let rests = table::first(s.approvals, approvals::with_id(l.approval_id->0));
            let pays = l.approval_id is Some && rests is Some && rests->0.status == "approved"@ && was.id
                == l.approval_id->0 && was.status == "approved"@;
            let kept = s.assignments[k].status == "queued"@ && s.assignments[k].error is Some
                && "restart window held until "@.is_prefix_of(s.assignments[k].error->0);
            &&& table::any(s.leases, to_give_back(resource, owner, fence, forced)) <==> mine
            &&& !mine ==> after == s
            &&& after.leases.len() == s.leases.len()
            &&& after.approvals.len() == s.approvals.len()
            &&& after.assignments.len() == s.assignments.len()
            &&& after.leases[i] == if mine && s.leases[i].resource == resource {
                LeaseView { released_at: Some(now), ..s.leases[i] }
            } else {
                s.leases[i]
            }
            &&& after.approvals[j] == if mine && pays {
                ApprovalView { status: "consumed"@, reason: Some("lease released"@), updated_at: now, ..was }
            } else {
                was
            }
            &&& mine && pays ==> after.decisions == s.decisions.push(
                crate::rows::DecisionView {
                    id: decision_id,
                    approval_id: was.id,
                    from: "approved"@,
                    to: "consumed"@,
                    actor: owner,
                    reason: Some("lease released"@),
                    at: now,
                },
            )
            &&& after.assignments[k] == if mine && resource == "restart"@ && kept {
                AssignmentView {
                    next_attempt_at: None,
                    error: None,
                    conflict_since: None,
                    updated_at: now,
                    ..s.assignments[k]
                }
            } else {
                s.assignments[k]
            }
            &&& after == (StoreView {
                leases: after.leases,
                approvals: after.approvals,
                decisions: after.decisions,
                assignments: after.assignments,
                ..s
            })
        }),
{
    let hit = to_give_back(resource, owner, fence, forced);
    let on = leases::on(resource);
    let back = leases::given_back(now);
    table::first_is_a_hit(s.leases, on);
    let m = choose|m: int| 0 <= m < s.leases.len() && s.leases[m] == l && on(#[trigger] s.leases[m]);
    if table::any(s.leases, hit) {
        let n = choose|n: int| 0 <= n < s.leases.len() && hit(#[trigger] s.leases[n]);
        assert(s.leases[n].resource == s.leases[m].resource);
        assert(n == m);
    } else {
        assert(!hit(s.leases[m]));
        assert(table::changed(s.leases, hit, back) =~= s.leases) by {
            assert forall|n: int| 0 <= n < s.leases.len() implies !hit(#[trigger] s.leases[n]) by {
            }
        }
    }
    assert(hit(s.leases[m]) ==> table::any(s.leases, hit));
    if s.leases[i].resource == resource {
        assert(s.leases[i].resource == s.leases[m].resource);
        assert(i == m);
    }
    table::first_of_changed(s.leases, on, hit, back);
    let given = StoreView { leases: table::changed(s.leases, hit, back), ..s };
    if l.approval_id is Some {
        leases::an_approval_is_used_up_once(given, l.approval_id->0, decision_id, owner, "lease released"@, now, j);
        table::first_is_a_hit(s.approvals, approvals::with_id(l.approval_id->0));
    }
}

/// The restart window is held exactly while its lease was not given back and has a readable end that is
/// still ahead; it is unreadable exactly while it was not given back and its end cannot be read; and
/// otherwise it is free. Who is kept out is told by whom, under which fence and until when.
pub proof fn the_window_is_what_its_lease_says(s: StoreView, now: Seq<char>)
    ensures
        ({
            let lease = table::first(s.leases, leases::on("restart"@));
            let l = lease->0;
            let open = lease is Some && l.released_at is None;
            let readable = l.expires_at is Some && time::rfc3339(l.expires_at->0) is Some;
            &&& window(s, now) is Unreadable <==> open && !readable
            &&& window(s, now) is Held <==> open && readable && time::ts_before(now, l.expires_at->0)
            &&& (window(s, now) matches WindowState::Held(v) ==> v.resource == "restart"@ && v.fence == l.fence && v.expires_at
                == l.expires_at->0 && (l.owner is Some ==> v.owner == l.owner->0) && (l.owner is None ==> v.owner.len() == 0))
        }),
{
}

/// When the daemon comes up again, whatever restart lease was open is given back, the approval behind it is
/// used up, and everything that a window kept queued is let go.
pub proof fn a_restart_gives_its_window_back(s: StoreView, decision_id: Seq<char>, now: Seq<char>, l: LeaseView, i: int, j: int, k: int)
    requires
        leases::resources_are_unique(s.leases),
        table::first(s.leases, leases::on("restart"@)) == Some(l),
        forall|d: int| 0 <= d < s.decisions.len() ==> (#[trigger] s.decisions[d]).id != decision_id,
        0 <= i < s.leases.len(),
        0 <= j < s.approvals.len(),
        0 <= k < s.assignments.len(),
    ensures
        ({
            let after = restarted(s, decision_id, now);
            let open = l.released_at is None;
            let was = s.approvals[j];
            let rests = table::first(s.approvals, approvals::with_id(l.approval_id->0));
            let kept = s.assignments[k].status == "queued"@ && s.assignments[k].error is Some
                && "restart window held until "@.is_prefix_of(s.assignments[k].error->0);
            &&& after.leases[i] == if open && s.leases[i].resource == "restart"@ {
                LeaseView { released_at: Some(now), ..s.leases[i] }
            } else {
                s.leases[i]
            }
            &&& after.approvals[j] == if open && l.approval_id == Some(was.id) && was.status == "approved"@ && rests is Some
                && rests->0.status == "approved"@ {
                ApprovalView { status: "consumed"@, reason: Some("lease released"@), updated_at: now, ..was }
            } else {
                was
            }
            &&& after.assignments[k] == if kept {
                AssignmentView {
                    next_attempt_at: None,
                    error: None,
                    conflict_since: None,
                    updated_at: now,
                    ..s.assignments[k]
                }
            } else {
                s.assignments[k]
            }
        }),
{
    if l.released_at is None {
        a_window_is_given_back_by_its_holder(s, "restart"@, or_empty(l.owner), l.fence, true, decision_id, now, l, i, j, k);
    }
}

/// A window with a token is given back only to the one who shows it, or by force: anybody else is told so,
/// and nothing is written. The answer says whether there was anything to give back, and that is so exactly
/// where name and fence are right, or it is forced, and it was not given back before.
pub proof fn a_window_is_given_back_on_its_token(
    s: StoreView,
    resource: Seq<char>,
    owner: Seq<char>,
    fence: i64,
    shown: LeaseProof<'_>,
    decision_id: Seq<char>,
    now: Seq<char>,
    l: LeaseView,
)
    requires
        leases::resources_are_unique(s.leases),
        table::first(s.leases, leases::on(resource)) == Some(l),
    ensures
        ({
            let (got, after) = giving_back(s, resource, owner, fence, shown, decision_id, now);
            let forced = shown is Forced;
            let proven = forced || l.lease_token is None || (shown matches LeaseProof::Token(t) && t@ == l.lease_token->0);
            let mine = l.released_at is None && (forced || (l.owner == Some(owner) && l.fence == fence));
            &&& !proven ==> got is Err && after == s
            &&& proven ==> got == Ok::<bool, LeaseTokenMismatch>(mine) && after == released(
                s,
                resource,
                owner,
                fence,
                forced,
                decision_id,
                now,
            )
        }),
{
    let hit = to_give_back(resource, owner, fence, shown is Forced);
    let on = leases::on(resource);
    table::first_is_a_hit(s.leases, on);
    let m = choose|m: int| 0 <= m < s.leases.len() && s.leases[m] == l && on(#[trigger] s.leases[m]);
    if table::any(s.leases, hit) {
        let n = choose|n: int| 0 <= n < s.leases.len() && hit(#[trigger] s.leases[n]);
        assert(s.leases[n].resource == s.leases[m].resource);
        assert(n == m);
    } else {
        assert(!hit(s.leases[m]));
    }
}

/// A bot in a list is shown by its id and its name.
pub proof fn a_bot_is_shown_by_id_and_name(v: BotNameView)
    ensures
        ({
            let m = bot_members(v);
            &&& m.len() == 2
            &&& m.contains(("bot_id"@, json::FieldView::Str(v.bot_id)))
            &&& m.contains(("name"@, json::FieldView::Str(v.name)))
        }),
{
    let m = bot_members(v);
    assert(m[0].0 == "bot_id"@);
    assert(m[1].0 == "name"@);
}

/// A bot that a prompt is delivered to is shown with the turn.
pub proof fn a_delivery_is_shown_with_its_turn(v: BotTurnView)
    ensures
        ({
            let m = delivery_members(v);
            &&& m.len() == 3
            &&& m.contains(("bot_id"@, json::FieldView::Str(v.bot_id)))
            &&& m.contains(("name"@, json::FieldView::Str(v.name)))
            &&& m.contains(("turn_id"@, json::FieldView::Str(v.turn_id)))
        }),
{
    let m = delivery_members(v);
    assert(m[0].0 == "bot_id"@);
    assert(m[1].0 == "name"@);
    assert(m[2].0 == "turn_id"@);
}

/// A working bot is shown with whether it is the manager.
pub proof fn a_working_bot_is_shown(v: WorkingBotView)
    ensures
        ({
            let m = working_members(v);
            &&& m.len() == 3
            &&& m.contains(("bot_id"@, json::FieldView::Str(v.bot_id)))
            &&& m.contains(("name"@, json::FieldView::Str(v.name)))
            &&& m.contains(("is_supervisor"@, json::FieldView::Bool(v.is_supervisor)))
        }),
{
    let m = working_members(v);
    assert(m[0].0 == "bot_id"@);
    assert(m[1].0 == "name"@);
    assert(m[2].0 == "is_supervisor"@);
}

/// A held lease is shown with whose it is, whether that is who asks, and until when.
pub proof fn a_held_lease_is_shown(v: HeldLeaseView)
    ensures
        ({
            let m = held_lease_members(v);
            let text_or_null = |o: Option<Seq<char>>|
                match o {
                    Some(x) => json::FieldView::Str(x),
                    None => json::FieldView::Null,
                };
            &&& m.len() == 5
            &&& m.contains(("resource"@, json::FieldView::Str(v.resource)))
            &&& m.contains(("owner"@, text_or_null(v.owner)))
            &&& m.contains(("own"@, json::FieldView::Bool(v.own)))
            &&& m.contains(("fence"@, json::FieldView::Int(v.fence)))
            &&& m.contains(("expires_at"@, text_or_null(v.expires_at)))
        }),
{
    let m = held_lease_members(v);
    assert(m[0].0 == "resource"@);
    assert(m[1].0 == "owner"@);
    assert(m[2].0 == "own"@);
    assert(m[3].0 == "fence"@);
    assert(m[4].0 == "expires_at"@);
}

/// A bot in the middle of a turn is shown with the turn.
pub proof fn a_turn_in_flight_is_shown(v: BotTurnView)
    ensures
        ({
            let m = in_flight_members(v);
            &&& m.len() == 2
            &&& m.contains(("bot_id"@, json::FieldView::Str(v.bot_id)))
            &&& m.contains(("turn_id"@, json::FieldView::Str(v.turn_id)))
        }),
{
    let m = in_flight_members(v);
    assert(m[0].0 == "bot_id"@);
    assert(m[1].0 == "turn_id"@);
}

/// The report on a window is shown with each list under its own name, the verdict, and the wait that counts;
/// without one, the wait and its approval are null.
pub proof fn a_report_is_shown_whole(v: SafetyReportView)
    ensures
        ({
            let m = safety_members(v);
            let text_or_null = |o: Option<Seq<char>>|
                match o {
                    Some(x) => json::FieldView::Str(x),
                    None => json::FieldView::Null,
                };
            let number_or_null = |o: Option<i64>|
                match o {
                    Some(n) => json::FieldView::Int(n),
                    None => json::FieldView::Null,
                };
            let waited = match v.escalation { Some(e) => Some(e.waited_secs), None => None, };
            let approval_id = match v.escalation { Some(e) => Some(e.approval_id), None => None, };
            &&& m.len() == 14
            &&& m.contains(("safe"@, json::FieldView::Bool(v.safe)))
            &&& m.contains(("escalated"@, json::FieldView::Bool(v.escalated)))
            &&& m.contains(("waited_secs"@, number_or_null(waited)))
            &&& m.contains(("escalation_approval_id"@, text_or_null(approval_id)))
            &&& m.contains(("escalate_after_secs"@, json::FieldView::Int(v.escalate_after_secs)))
            &&& m.contains(("delivering"@, json::FieldView::Json(json::json_array(delivery_texts(v.delivering)))))
            &&& m.contains(("held_leases"@, json::FieldView::Json(json::json_array(held_lease_texts(v.held_leases)))))
            &&& m.contains(("owner"@, text_or_null(v.owner)))
            &&& m.contains(("working"@, json::FieldView::Json(json::json_array(working_texts(v.working)))))
            &&& m.contains(("in_flight"@, json::FieldView::Json(json::json_array(in_flight_texts(v.in_flight)))))
            &&& m.contains(("unreadable"@, json::FieldView::Json(json::json_array(bot_texts(v.unreadable)))))
            &&& m.contains(
                (
                    "blocked_waiting_for_user"@,
                    json::FieldView::Json(json::json_array(bot_texts(v.blocked_waiting_for_user))),
                ),
            )
            &&& m.contains(("queued_assignments"@, json::FieldView::Count(v.queued_assignments as u64)))
            &&& m.contains(("checked_at"@, json::FieldView::Str(v.checked_at)))
        }),
{
    let m = safety_members(v);
    assert(m[0].0 == "safe"@);
    assert(m[1].0 == "escalated"@);
    assert(m[2].0 == "waited_secs"@);
    assert(m[3].0 == "escalation_approval_id"@);
    assert(m[4].0 == "escalate_after_secs"@);
    assert(m[5].0 == "delivering"@);
    assert(m[6].0 == "held_leases"@);
    assert(m[7].0 == "owner"@);
    assert(m[8].0 == "working"@);
    assert(m[9].0 == "in_flight"@);
    assert(m[10].0 == "unreadable"@);
    assert(m[11].0 == "blocked_waiting_for_user"@);
    assert(m[12].0 == "queued_assignments"@);
    assert(m[13].0 == "checked_at"@);
}

/// Who is given a window gets the lease, its token, the approval and the report.
pub proof fn who_is_given_a_window_gets_its_token(lease: LeaseView, approval: ApprovalView, safety: SafetyReportView, token: Option<Seq<char>>, now: Seq<char>)
    ensures
        ({
            let m = granted_members(lease, approval, safety, token, now);
            let text_or_null = |o: Option<Seq<char>>|
                match o {
                    Some(x) => json::FieldView::Str(x),
                    None => json::FieldView::Null,
                };
            &&& m.len() == 4
            &&& m.contains(("lease"@, json::FieldView::Json(json::json_object(render::lease_members(lease, now)))))
            &&& m.contains(("lease_token"@, text_or_null(token)))
            &&& m.contains(("approval"@, json::FieldView::Json(json::json_object(render::approval_members(approval)))))
            &&& m.contains(("safety"@, json::FieldView::Json(json::json_object(safety_members(safety)))))
        }),
{
    let m = granted_members(lease, approval, safety, token, now);
    assert(m[0].0 == "lease"@);
    assert(m[1].0 == "lease_token"@);
    assert(m[2].0 == "approval"@);
    assert(m[3].0 == "safety"@);
}

/// Without a name, the wait that counts is that of the approval for a window that has waited longest.
pub proof fn without_a_name_the_longest_wait_counts(s: StoreView, threshold: i64, now: Seq<char>)
    ensures
        ({
            let e = escalation_of(s, None, threshold, now);
            let a = approvals::waiting_longest(s.approvals, now);
            &&& e is Some <==> a is Some
            &&& e is Some ==> e->0.approval_id == a->0.id && e == escalation_of(
                StoreView { approvals: seq![a->0], ..s },
                Some(a->0.id),
                threshold,
                now,
            )
        }),
{
    let a = approvals::waiting_longest(s.approvals, now);
    let list = table::ordered(s.approvals.filter(approvals::live_window(now)), approvals::waits_longer());
    if a is Some {
        assert(list.contains(list[0]));
        table::ordering_keeps_each_row(s.approvals.filter(approvals::live_window(now)), approvals::waits_longer(), a->0);
        table::selecting_takes_each_hit(s.approvals, approvals::live_window(now), a->0);
        table::first_at(seq![a->0], approvals::with_id(a->0.id), 0);
    }
}

/// Dispatch is paused until the end of the restart window while it is held, goes on while it is free, and
/// cannot be answered for while its state cannot be read.
pub proof fn dispatch_waits_for_the_end_of_the_window(s: StoreView, now: Seq<char>, k: int)
    requires
        0 <= k < s.leases.len(),
        s.leases[k].resource == "restart"@,
        forall|j: int| 0 <= j < k ==> (#[trigger] s.leases[j]).resource != "restart"@,
    ensures
        ({
            let l = s.leases[k];
            let paused = paused_until(window(s, now));
            let readable = l.expires_at is Some && time::rfc3339(l.expires_at->0) is Some;
            &&& l.released_at is Some ==> paused == Some(None::<Seq<char>>)
            &&& l.released_at is None && !readable ==> paused is None
            &&& l.released_at is None && readable && time::ts_before(now, l.expires_at->0) ==> paused == Some(l.expires_at)
            &&& l.released_at is None && readable && !time::ts_before(now, l.expires_at->0) ==> paused == Some(
                None::<Seq<char>>,
            )
        }),
{
    let hit = leases::on("restart"@);
    assert(hit(s.leases[k]));
    assert forall|j: int| 0 <= j < k implies !hit(#[trigger] s.leases[j]) by {
        assert(s.leases[j].resource != "restart"@);
    }
    table::first_at(s.leases, hit, k);
}

/// A wait is the whole seconds from one moment to a later one; what lies ahead, and what cannot be read, is
/// none.
pub proof fn a_wait_is_never_negative(since: Seq<char>, now: Seq<char>)
    ensures
        ({
            let from = time::rfc3339(since);
            let to = time::rfc3339(now);
            &&& from is Some && to is Some && time::whole_seconds(from->0, to->0) > 0 ==> waited(since, now)
                == time::whole_seconds(from->0, to->0)
            &&& from is None || to is None || time::whole_seconds(from->0, to->0) <= 0 ==> waited(since, now) == 0
        }),
{
}

/// Somebody who is kept out is told who holds the window, under which fence and until when, how many seconds
/// that is, and that nothing was sent and trying again will help.
pub proof fn who_is_kept_out_is_told_for_how_long(w: WindowHeldView, now: Seq<char>, until: Instant, at: Instant)
    requires
        time::rfc3339(w.expires_at) == Some(until),
        time::rfc3339(now) == Some(at),
        time::whole_seconds(at, until) > 0,
    ensures
        ({
            let m = held_members(w, now);
            &&& m.len() == 9
            &&& m.contains(("reason"@, json::FieldView::Str("maintenance_window"@)))
            &&& m.contains(("resource"@, json::FieldView::Str(w.resource)))
            &&& m.contains(("held_by"@, json::FieldView::Str(w.owner)))
            &&& m.contains(("fence"@, json::FieldView::Int(w.fence)))
            &&& m.contains(("expires_at"@, json::FieldView::Str(w.expires_at)))
            &&& m.contains(("retry_after_secs"@, json::FieldView::Int(time::whole_seconds(at, until))))
            &&& m.contains(("retryable"@, json::FieldView::Bool(true)))
            &&& m.contains(("sent"@, json::FieldView::Bool(false)))
        }),
{
    let m = held_members(w, now);
    assert(m[0].0 == "reason"@ && m[1].0 == "resource"@ && m[2].0 == "held_by"@ && m[3].0 == "fence"@);
    assert(m[4].0 == "expires_at"@ && m[5].0 == "retry_after_secs"@ && m[6].0 == "retryable"@ && m[7].0 == "sent"@);
}

/// How long there is still to wait is what is missing from the threshold, told as a moment that far ahead;
/// without a wait that counts, and with one that is long enough, there is nothing to tell.
pub proof fn what_is_left_of_a_wait(v: SafetyReportView, now: Instant)
    ensures
        v.escalation is None ==> escalates_in(v) is None,
        v.escalation is Some && v.escalation->0.waited_secs >= v.escalate_after_secs ==> escalates_in(v) is None,
        v.escalation is Some && 0 <= v.escalation->0.waited_secs < v.escalate_after_secs ==> (escalates_in(v) matches Some(n)
            && n + v.escalation->0.waited_secs == v.escalate_after_secs && escalates_at(escalates_in(v), now) == Some(
            time::iso_millis(now.plus(v.escalate_after_secs - v.escalation->0.waited_secs)),
        )),
        escalates_in(v) is None ==> escalates_at(escalates_in(v), now) is None,
{
}

/// The bot that is left out of the check is the requester's own, and only where the requester asked for it;
/// whoever else is named is found.
pub proof fn only_ones_own_bot_is_left_out(exclude: Seq<Seq<char>>, me: Option<Seq<char>>, k: int)
    requires
        0 <= k < exclude.len(),
    ensures
        left_out(exclude, me) is Some ==> left_out(exclude, me) == me && exclude.contains(me->0),
        Some(exclude[k]) == me ==> left_out(exclude, me) == me,
        Some(exclude[k]) != me ==> first_other(exclude, me) is Some,
        first_other(exclude, me) is Some ==> first_other(exclude, me) != me && exclude.contains(first_other(exclude, me)->0),
{
    let hit = |id: Seq<char>| Some(id) != me;
    table::first_is_a_hit(exclude, hit);
    assert(exclude.contains(exclude[k]));
    if Some(exclude[k]) != me {
        assert(hit(exclude[k]));
    }
}

/// A refusal is a conflict with the reason in its detail; only a resource that there is not, a check that
/// cannot be skipped and an approval that is not there are answered in words alone.
pub proof fn how_each_refusal_is_answered(o: Outcome, q: WindowRequestView, now: Instant)
    ensures
        ({
            let r = window_refusal(o, q, now);
            &&& o is UnknownResource ==> r == RefusalView::Bad("unknown lease resource: "@ + q.resource)
            &&& o is IdleCheckRequired ==> r == RefusalView::Bad(
                "the `"@ + q.resource + "` window cannot skip the idle check; wait for a safe window instead"@,
            )
            &&& o is NoApproval ==> r == RefusalView::NotFound("approval"@)
            &&& (o is NotCovered || o is GrantedToAnother || o is AlreadyUsed || o is ExcludeNotRequester || o is NotIdle
                || o is Raced || o is Held) ==> r is Conflict
        }),
{
}

/// The detail of a refusal says which approval, which window, which bot or which wait stands in the way.
pub proof fn what_stands_in_the_way_is_said(o: Outcome, owner: Seq<char>, commit: Option<Seq<char>>, now: Instant)
    ensures
        ({
            let m = refusal_members(o, owner, commit, now)->0;
            let said = |w: Seq<char>| m.contains(("reason"@, json::FieldView::Str(w)));
            let text_or_null = |x: Option<Seq<char>>|
                match x {
                    Some(t) => json::FieldView::Str(t),
                    None => json::FieldView::Null,
                };
            &&& o matches Outcome::NotCovered { reason, approval } ==> said(reason) && m.contains(
                ("approval_id"@, json::FieldView::Str(approval.id)),
            ) && m.contains(("status"@, json::FieldView::Str(approval.status))) && m.contains(
                ("target_commit"@, text_or_null(approval.target_commit)),
            ) && m.contains(("requested_commit"@, text_or_null(commit)))
            &&& o matches Outcome::GrantedToAnother { approval } ==> said("approval_owner_mismatch"@) && m.contains(
                ("approval_id"@, json::FieldView::Str(approval.id)),
            ) && m.contains(("requester"@, json::FieldView::Str(approval.requester))) && m.contains(
                ("owner"@, json::FieldView::Str(owner)),
            )
            &&& o matches Outcome::AlreadyUsed { approval, fence } ==> said("approval_already_used"@) && m.contains(
                ("approval_id"@, json::FieldView::Str(approval.id)),
            ) && m.contains(("fence"@, json::FieldView::Int(fence)))
            &&& o matches Outcome::ExcludeNotRequester { excluded, requester, requester_bot_id } ==> said(
                "exclude_not_requester"@,
            ) && m.contains(("excluded"@, json::FieldView::Str(excluded))) && m.contains(
                ("requester"@, json::FieldView::Str(requester)),
            ) && m.contains(("requester_bot_id"@, text_or_null(requester_bot_id)))
            &&& o matches Outcome::NotIdle { safety, escalates_in } ==> said("not_idle"@) && m.contains(
                ("escalate_after_secs"@, json::FieldView::Int(safety.escalate_after_secs)),
            ) && (safety.escalation matches Some(e) ==> m.contains(("waited_secs"@, json::FieldView::Int(e.waited_secs)))) && (
            escalates_in matches Some(n) ==> m.contains(
                ("escalates_at"@, json::FieldView::Str(time::iso_millis(now.plus(n as int)))),
            ))
            &&& o is Raced ==> said("not_idle"@) && m.contains(("raced"@, json::FieldView::Bool(true)))
            &&& o is Held ==> said("lease_held"@)
        }),
{
    let m = refusal_members(o, owner, commit, now)->0;
    if refusal_members(o, owner, commit, now) is Some {
        assert(m[0].0 == "reason"@);
        assert(m[1].0 == m[1].0);
        if m.len() > 2 {
            assert(m[2].0 == m[2].0 && m[3].0 == m[3].0);
        }
        if m.len() > 4 {
            assert(m[4].0 == m[4].0);
        }
    }
}

/// Whoever asks about a window that cannot be read is told so, that nothing was sent, and to try again in ten
/// seconds.
pub proof fn an_unreadable_window_is_said_to_be_one(resource: Seq<char>)
    ensures
        ({
            let m = unreadable_members(resource);
            &&& m.len() == 6
            &&& m.contains(("reason"@, json::FieldView::Str("maintenance_state_unavailable"@)))
            &&& m.contains(("resource"@, json::FieldView::Str(resource)))
            &&& m.contains(("retry_after_secs"@, json::FieldView::Int(10)))
            &&& m.contains(("retryable"@, json::FieldView::Bool(true)))
            &&& m.contains(("sent"@, json::FieldView::Bool(false)))
            &&& m.contains(("message"@, json::FieldView::Str( "讀不到 "@ + resource + " 維護窗口的狀態，所以不送新的 prompt（不確定有沒有窗口）；稍後原樣重送即可。"@, )))
        }),
{
    let m = unreadable_members(resource);
    assert(m[0].0 == "reason"@);
    assert(m[1].0 == "resource"@);
    assert(m[2].0 == "retry_after_secs"@);
    assert(m[3].0 == "retryable"@);
    assert(m[4].0 == "sent"@);
    assert(m[5].0 == "message"@);
}

/// What came of asking for a window is what was answered: a window exactly where one was given, and else the
/// reason that was given, with what it names.
pub proof fn an_outcome_is_what_was_answered(res: Result<Acquired, AcquireError>)
    ensures
        ({
            let o = outcome_of(res);
            &&& o is Taken <==> res is Ok
            &&& res matches Ok(t) ==> o == (Outcome::Taken { lease: t.lease@, approval: t.approval@, safety: t.safety@ })
            &&& res matches Err(e) ==> {
                &&& o is UnknownResource <==> e is UnknownResource
                &&& o is IdleCheckRequired <==> e is IdleCheckRequired
                &&& o is NoApproval <==> e is NoApproval
                &&& o is NotCovered <==> e is NotCovered
                &&& o is GrantedToAnother <==> e is GrantedToAnother
                &&& o is AlreadyUsed <==> e is AlreadyUsed
                &&& o is ExcludeNotRequester <==> e is ExcludeNotRequester
                &&& o is NotIdle <==> e is NotIdle
                &&& o is Raced <==> e is Raced
                &&& o is Held <==> e is Held
                &&& e matches AcquireError::NotCovered { reason, approval } ==> o == (Outcome::NotCovered {
                    reason: reason@,
                    approval: approval@,
                })
                &&& e matches AcquireError::AlreadyUsed { approval, fence } ==> o == (Outcome::AlreadyUsed {
                    approval: approval@,
                    fence,
                })
            }
        }),
{
}

/// A window that is over lets go whatever it kept queued, and nothing else.
pub proof fn a_closed_window_keeps_nothing_queued(s: StoreView, now: Seq<char>, until: Seq<char>, k: int)
    requires
        0 <= k < s.assignments.len(),
    ensures
        ({
            let after = closed(s, now);
            let a = s.assignments[k];
            &&& after == (StoreView { assignments: after.assignments, ..s })
            &&& after.assignments.len() == s.assignments.len()
            &&& a.status == "queued"@ && a.error == Some("restart window held until "@ + until) ==> after.assignments[k]
                == (crate::rows::AssignmentView {
                next_attempt_at: None,
                error: None,
                conflict_since: None,
                updated_at: now,
                ..a
            })
            &&& a.status != "queued"@ || a.error is None ==> after.assignments[k] == a
        }),
{
    assignments::what_a_window_held_goes_out(s.assignments, now, until, k);
}

/// An answer about a window is that there is none exactly where it is free, its holder where it is held, and
/// an error where it cannot be read.
pub proof fn an_answer_about_a_window_is_what_is_known(r: Result<Option<WindowHeld>, WindowUnreadable>, w: WindowState)
    requires
        answers(r, w),
    ensures
        w is Unreadable <==> r is Err,
        w is Free <==> r matches Ok(None),
        w matches WindowState::Held(v) ==> (r matches Ok(Some(h)) && h.owner@ == v.owner && h.fence == v.fence && h.expires_at@
            == v.expires_at && h.resource@ == v.resource),
{
}

/// An assignment that a window holds with its note is let go when the window is over, whenever that is.
pub proof fn what_is_noted_as_paused_is_let_go(s: StoreView, until: Seq<char>, now: Seq<char>, later: Seq<char>, id: Seq<char>, k: int)
    requires
        0 <= k < s.assignments.len(),
        s.assignments[k].id == id,
        s.assignments[k].status == "queued"@,
    ensures
        ({
            let paused = StoreView {
                assignments: assignments::put_on_hold(s.assignments, id, until, note_of_pause(until), now),
                ..s
            };
            let after = closed(paused, later);
            &&& paused.assignments[k].next_attempt_at == Some(until)
            &&& after.assignments[k].status == "queued"@ && after.assignments[k].error is None
                && after.assignments[k].next_attempt_at is None
        }),
{
    let paused = StoreView { assignments: assignments::put_on_hold(s.assignments, id, until, note_of_pause(until), now), ..s };
    a_closed_window_keeps_nothing_queued(paused, later, until, k);
}

/// The threshold is counted in seconds: half an hour where nothing readable and positive is set.
pub proof fn the_threshold_in_seconds(raw: Option<Seq<char>>)
    ensures
        raw is None ==> threshold_of(raw) == 1800,
        raw is Some && (text::integer_64(text::trimmed(raw->0)) matches Some(m) && m > 0) ==> threshold_of(raw) == 60
            * text::integer_64(text::trimmed(raw->0))->0,
        raw is Some && !(text::integer_64(text::trimmed(raw->0)) matches Some(m) && m > 0) ==> threshold_of(raw) == 1800,
{
}

/// A window was left open exactly where the lease on it was never given back.
pub proof fn a_window_left_open_is_one_not_given_back(s: StoreView, k: int)
    requires
        0 <= k < s.leases.len(),
        s.leases[k].resource == "restart"@,
        forall|j: int| 0 <= j < k ==> (#[trigger] s.leases[j]).resource != "restart"@,
    ensures
        left_open(s) <==> s.leases[k].released_at is None,
{
    leases::a_lease_is_found_by_its_resource(s.leases, "restart"@, k);
}

} // verus!
