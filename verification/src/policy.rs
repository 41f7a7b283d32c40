//! Which model the manager runs on, and when it waits for quota.
//!
//! One account has two candidates. One of them, `fable`, has a weekly bucket of its own; the five-hour
//! and the seven-day windows are shared. A window whose reset has passed is full again, whatever an
//! older reading says, and no switch is proposed in the middle of a turn.
use crate::rows::{Supervisor, SupervisorView};
use crate::text;
use crate::time;
use crate::time::Instant;
use vstd::prelude::*;

verus! {

/// One percent, in the millionths of a percent that readings are counted in.
pub const PCT: i64 = 1_000_000;

/// Leave `fable` with less than this left, in percent.
pub const FABLE_MIN_REMAINING_PCT: i64 = 5;

/// Come back to `fable` with at least this left, in percent: the gap keeps one reading on the line
/// from flipping the manager back and forth.
pub const FABLE_RETURN_REMAINING_PCT: i64 = 20;

/// A reading of a quota window that still says something.
#[derive(Debug)]
pub struct Window {
    /// What is used, in millionths of a percent, rounded up.
    pub used: i64,
    /// What is left, as a whole percent, as it is shown.
    pub shown_left: i64,
    pub resets_at: Option<String>,
    /// The reading is at its limit.
    pub exhausted: bool,
}

/// What a `Window` holds.
#[verifier::ext_equal]
pub struct WindowView {
    pub used: i64,
    pub shown_left: i64,
    pub resets_at: Option<Seq<char>>,
    pub exhausted: bool,
}

impl View for Window {
    type V = WindowView;

    open spec fn view(&self) -> WindowView {
        WindowView {
            used: self.used,
            shown_left: self.shown_left,
            resets_at: text::opt(self.resets_at),
            exhausted: self.exhausted,
        }
    }
}

/// The readings of an account. A reading that is too old to say anything is left out.
#[derive(Debug)]
pub struct Quota {
    pub five_hour: Option<Window>,
    pub seven_day: Option<Window>,
    pub fable: Option<Window>,
}

/// What a `Quota` holds.
#[verifier::ext_equal]
pub struct QuotaView {
    pub five_hour: Option<WindowView>,
    pub seven_day: Option<WindowView>,
    pub fable: Option<WindowView>,
}

pub open spec fn window_view(w: Option<Window>) -> Option<WindowView> {
    match w {
        Some(x) => Some(x@),
        None => None,
    }
}

impl View for Quota {
    type V = QuotaView;

    open spec fn view(&self) -> QuotaView {
        QuotaView {
            five_hour: window_view(self.five_hour),
            seven_day: window_view(self.seven_day),
            fable: window_view(self.fable),
        }
    }
}

#[derive(Debug, Clone, PartialEq)]
pub enum Decision {
    Keep,
    /// A shared window is at its limit: both candidates are out, until the nearest reset.
    WaitQuota { reset_at: Option<String> },
    /// The shared windows are usable again.
    Resume,
    /// Switch now. `reset_at` is what is written down about the quota afterwards.
    SwitchTo { model: &'static str, reason: String, reset_at: Option<String> },
    /// A switch is due, but the manager is in the middle of a turn.
    Defer { model: &'static str },
}

/// What a `Decision` holds.
pub enum DecisionView {
    Keep,
    WaitQuota { reset_at: Option<Seq<char>> },
    Resume,
    SwitchTo { model: Seq<char>, reason: Seq<char>, reset_at: Option<Seq<char>> },
    Defer { model: Seq<char> },
}

impl View for Decision {
    type V = DecisionView;

    open spec fn view(&self) -> DecisionView {
        match *self {
            Decision::Keep => DecisionView::Keep,
            Decision::WaitQuota { reset_at } => DecisionView::WaitQuota { reset_at: text::opt(reset_at) },
            Decision::Resume => DecisionView::Resume,
            Decision::SwitchTo { model, reason, reset_at } => DecisionView::SwitchTo {
                model: model@,
                reason: reason@,
                reset_at: text::opt(reset_at),
            },
            Decision::Defer { model } => DecisionView::Defer { model: model@ },
        }
    }
}

/// The reset of the window has passed.
pub open spec fn refilled(w: WindowView, now: Instant) -> bool {
    w.resets_at is Some && time::passed(w.resets_at->0, now)
}

fn reset_passed(w: &Window, now: Instant) -> (r: bool)
    ensures
        r == refilled(w@, now),
{
    match &w.resets_at {
        Some(t) => time::past(t.as_str(), now),
        None => false,
    }
}

/// What is left, in millionths of a percent.
pub open spec fn remaining(w: WindowView, now: Instant) -> int {
    if refilled(w, now) {
        100_000_000
    } else if w.used > 100_000_000 {
        0
    } else {
        100_000_000 - w.used
    }
}

/// At least this much is left: what is used is rounded up, so this is exact for whole percents.
fn has_left(w: &Window, pct: i64, now: Instant) -> (r: bool)
    requires
        0 < pct <= 100,
    ensures
        r == (remaining(w@, now) >= pct * 1_000_000),
{
    reset_passed(w, now) || w.used <= 100_000_000 - pct * PCT
}

/// The cooldown of the last switch is over.
pub open spec fn cooled(r: SupervisorView, now: Instant) -> bool {
    r.cooldown_until is None || time::passed(r.cooldown_until->0, now)
}

fn cooldown_over(sup: &Supervisor, now: Instant) -> (r: bool)
    ensures
        r == cooled(sup@, now),
{
    match &sup.cooldown_until {
        Some(t) => time::past(t.as_str(), now),
        None => true,
    }
}

/// The shared window is at its limit.
pub open spec fn is_out(w: Option<WindowView>) -> bool {
    w is Some && w->0.exhausted
}

/// The reset of a window that is at its limit.
pub open spec fn reset_of(w: Option<WindowView>) -> Option<Seq<char>> {
    if is_out(w) {
        w->0.resets_at
    } else {
        None
    }
}

/// The nearest of two resets; the first of two that name the same time.
pub open spec fn nearest(a: Option<Seq<char>>, b: Option<Seq<char>>) -> Option<Seq<char>> {
    match (a, b) {
        (Some(x), Some(y)) => if time::ts_before(y, x) {
            Some(y)
        } else {
            Some(x)
        },
        (Some(x), None) => Some(x),
        (None, y) => y,
    }
}

/// A switch can be made: no turn is running.
pub open spec fn is_idle(liveness: Seq<char>) -> bool {
    liveness == "idle"@ || liveness == "stopped"@
}

/// The switch to another model, or the wait for the end of the turn.
pub open spec fn switched(model: Seq<char>, reason: Seq<char>, reset_at: Option<Seq<char>>, liveness: Seq<char>) -> DecisionView {
    if is_idle(liveness) {
        DecisionView::SwitchTo { model, reason, reset_at }
    } else {
        DecisionView::Defer { model }
    }
}

/// Why the manager comes home.
pub open spec fn return_reason(w: WindowView, now: Instant) -> Seq<char> {
    if refilled(w, now) {
        "fable 週額度已重置"@
    } else {
        "fable 剩餘額度回到 "@ + text::decimal(w.shown_left as int) + "%"@
    }
}

/// What is to be done about the model of the manager.
pub open spec fn decided(r: SupervisorView, quota: Option<QuotaView>, liveness: Seq<char>, now: Instant) -> DecisionView {
    let waiting = r.status == "waiting_quota"@;
    if r.bot_id is None {
        DecisionView::Keep
    } else if quota is None {
        if waiting && r.quota_reset_at is Some && time::passed(r.quota_reset_at->0, now) {
            DecisionView::Resume
        } else {
            DecisionView::Keep
        }
    } else {
        let q = quota->0;
        let reset_at = nearest(reset_of(q.five_hour), reset_of(q.seven_day));
        if is_out(q.five_hour) || is_out(q.seven_day) {
            if waiting && time::same_time(r.quota_reset_at, reset_at) {
                DecisionView::Keep
            } else {
                DecisionView::WaitQuota { reset_at }
            }
        } else if waiting {
            if r.fallback_tries >= 1 && !cooled(r, now) && r.quota_reset_at is Some && !time::passed(
                r.quota_reset_at->0,
                now,
            ) {
                DecisionView::Keep
            } else {
                DecisionView::Resume
            }
        } else if q.fable is None {
            DecisionView::Keep
        } else {
            let w = q.fable->0;
            if r.active_model == "fable"@ {
                if remaining(w, now) >= 5_000_000 {
                    DecisionView::Keep
                } else {
                    switched("opus"@, "fable 剩餘額度低於 5%"@, w.resets_at, liveness)
                }
            } else if remaining(w, now) < 20_000_000 || !cooled(r, now) {
                DecisionView::Keep
            } else {
                switched("fable"@, return_reason(w, now), None, liveness)
            }
        }
    }
}

fn out_reset(w: &Option<Window>) -> (r: (bool, Option<&str>))
    ensures
        r.0 == is_out(window_view(*w)),
        text::arg(r.1) == reset_of(window_view(*w)),
{
    match w {
        Some(x) => if x.exhausted {
            (true, text::borrowed(&x.resets_at))
        } else {
            (false, None)
        },
        None => (false, None),
    }
}

fn switch(model: &'static str, reason: String, reset_at: Option<String>, liveness: &str) -> (r: Decision)
    ensures
        r@ == switched(model@, reason@, text::opt(reset_at), liveness@),
{
    if text::same(liveness, "idle") || text::same(liveness, "stopped") {
        Decision::SwitchTo { model, reason, reset_at }
    } else {
        Decision::Defer { model }
    }
}

/// `liveness` is `stopped`, `starting`, `busy` or `idle`.
pub fn decide(sup: &Supervisor, quota: Option<&Quota>, liveness: &str, now: Instant) -> (r: Decision)
    ensures
        r@ == decided(
            sup@,
            match quota {
                Some(q) => Some(q@),
                None => None,
            },
            liveness@,
            now,
        ),
{
    if sup.bot_id.is_none() {
        return Decision::Keep;
    }
    let waiting = text::same(sup.status.as_str(), "waiting_quota");
    let reset_over = match &sup.quota_reset_at {
        Some(t) => time::past(t.as_str(), now),
        None => true,
    };
    let q = match quota {
        Some(q) => q,
        None => {
            if waiting && sup.quota_reset_at.is_some() && reset_over {
                return Decision::Resume;
            }
            return Decision::Keep;
        },
    };
    let (five_out, five_reset) = out_reset(&q.five_hour);
    let (seven_out, seven_reset) = out_reset(&q.seven_day);
    if five_out || seven_out {
        let reset_at = match (five_reset, seven_reset) {
            (Some(x), Some(y)) => if time::is_earlier(y, x) {
                Some(y)
            } else {
                Some(x)
            },
            (Some(x), None) => Some(x),
            (None, y) => y,
        };
        if waiting && time::same_instant(text::borrowed(&sup.quota_reset_at), reset_at) {
            return Decision::Keep;
        }
        return Decision::WaitQuota { reset_at: text::owned(reset_at) };
    }
    if waiting {
        let budget_spent = sup.fallback_tries >= 1 && !cooldown_over(sup, now);
        return if budget_spent && !reset_over {
            Decision::Keep
        } else {
            Decision::Resume
        };
    }
    let w = match &q.fable {
        None => {
            return Decision::Keep;
        },
        Some(w) => w,
    };
    if text::same(sup.active_model.as_str(), "fable") {
        if has_left(w, FABLE_MIN_REMAINING_PCT, now) {
            return Decision::Keep;
        }
        return switch("opus", "fable 剩餘額度低於 5%".to_owned(), text::copied(&w.resets_at), liveness);
    }
    if !has_left(w, FABLE_RETURN_REMAINING_PCT, now) || !cooldown_over(sup, now) {
        return Decision::Keep;
    }
    let reason = if reset_passed(w, now) {
        "fable 週額度已重置".to_owned()
    } else {
        let n = text::signed(w.shown_left);
        text::joined(text::joined("fable 剩餘額度回到 ", n.as_str()).as_str(), "%")
    };
    switch("fable", reason, None, liveness)
}

// ---------------------------------------------------------------- laws

/// No switch in the middle of a turn.
pub proof fn a_turn_is_never_interrupted(r: SupervisorView, quota: Option<QuotaView>, liveness: Seq<char>, now: Instant)
    requires
        !is_idle(liveness),
    ensures
        !(decided(r, quota, liveness, now) is SwitchTo),
{
}

/// While a shared window is at its limit nothing is switched: the other candidate would find no quota
/// either.
pub proof fn a_shared_limit_outranks_a_switch(r: SupervisorView, q: QuotaView, liveness: Seq<char>, now: Instant)
    requires
        is_out(q.five_hour) || is_out(q.seven_day),
    ensures
        decided(r, Some(q), liveness, now) is Keep || decided(r, Some(q), liveness, now) is WaitQuota,
{
}

/// The reading that drives the manager off `fable` does not bring it back.
pub proof fn one_reading_does_not_flip_back(r: SupervisorView, after: SupervisorView, q: QuotaView, liveness: Seq<char>, now: Instant)
    requires
        decided(r, Some(q), liveness, now) matches DecisionView::SwitchTo { model, reason, reset_at } && model == "opus"@,
        after.active_model == "opus"@,
        after.status != "waiting_quota"@,
    ensures
        decided(after, Some(q), liveness, now) is Keep,
{
    reveal_strlit("opus");
    reveal_strlit("fable");
    assert("opus"@.len() == 4 && "fable"@.len() == 5);
}

/// Without a reading nobody moves, and a wait ends only when the reset that was written down passed.
pub proof fn no_reading_is_not_a_full_account(r: SupervisorView, liveness: Seq<char>, now: Instant)
    ensures
        ({
            let d = decided(r, None, liveness, now);
            d is Keep || (d is Resume && r.status == "waiting_quota"@ && r.quota_reset_at is Some && time::passed(
                r.quota_reset_at->0,
                now,
            ))
        }),
{
}

/// Once a wait has been written down, the same readings announce nothing new.
pub proof fn a_wait_is_announced_once(r: SupervisorView, after: SupervisorView, q: QuotaView, liveness: Seq<char>, now: Instant)
    requires
        decided(r, Some(q), liveness, now) is WaitQuota,
        after.bot_id is Some,
        after.status == "waiting_quota"@,
        after.quota_reset_at == decided(r, Some(q), liveness, now)->WaitQuota_reset_at,
    ensures
        decided(after, Some(q), liveness, now) is Keep,
{
    match after.quota_reset_at {
        Some(t) => {
            match time::rfc3339(t) {
                Some(x) => {},
                None => {
                    text::text_order_is_strict(t, t);
                },
            }
        },
        None => {},
    }
}

/// A manager that is set up is parked exactly when the five-hour or the seven-day window is at its limit,
/// unless it waits for that very reset already. It waits for the earliest reset of the windows that are at
/// their limit, as far as they say when they reset.
pub proof fn either_shared_limit_parks_the_manager(r: SupervisorView, q: QuotaView, liveness: Seq<char>, now: Instant)
    ensures
        ({
            let d = decided(r, Some(q), liveness, now);
            let five = q.five_hour is Some && q.five_hour->0.exhausted;
            let seven = q.seven_day is Some && q.seven_day->0.exhausted;
            let five_reset = if five {
                q.five_hour->0.resets_at
            } else {
                None
            };
            let seven_reset = if seven {
                q.seven_day->0.resets_at
            } else {
                None
            };
            let parked = r.status == "waiting_quota"@;
            let knows = |t: Option<Seq<char>>| time::same_time(r.quota_reset_at, t);
            &&& (d matches DecisionView::WaitQuota { reset_at } ==> {
                &&& r.bot_id is Some
                &&& five || seven
                &&& reset_at is None <==> five_reset is None && seven_reset is None
                &&& reset_at is Some ==> reset_at == five_reset || reset_at == seven_reset
                &&& five_reset is Some ==> !time::ts_before(five_reset->0, reset_at->0)
                &&& seven_reset is Some ==> !time::ts_before(seven_reset->0, reset_at->0)
                &&& !(parked && knows(reset_at))
            })
            &&& r.bot_id is Some && (five || seven) && !(d is WaitQuota) ==> {
                &&& d is Keep
                &&& parked
                &&& knows(five_reset) || knows(seven_reset)
            }
            &&& r.bot_id is Some && (five || seven) && !parked ==> d is WaitQuota
            &&& r.bot_id is Some && five && !seven && !knows(five_reset) ==> d == (DecisionView::WaitQuota {
                reset_at: five_reset,
            })
            &&& r.bot_id is Some && seven && !five && !knows(seven_reset) ==> d == (DecisionView::WaitQuota {
                reset_at: seven_reset,
            })
            &&& r.bot_id is Some && (five || seven) && parked && !knows(five_reset) && !knows(seven_reset) ==> d is WaitQuota
            &&& r.bot_id is Some && five_reset is Some && seven_reset is Some && time::ts_before(
                seven_reset->0,
                five_reset->0,
            ) && !knows(seven_reset) ==> d == (DecisionView::WaitQuota { reset_at: seven_reset })
            &&& r.bot_id is Some && five_reset is Some && seven_reset is Some && time::ts_before(
                five_reset->0,
                seven_reset->0,
            ) && !knows(five_reset) ==> d == (DecisionView::WaitQuota { reset_at: five_reset })
        }),
{
    let five_reset = reset_of(q.five_hour);
    let seven_reset = reset_of(q.seven_day);
    if five_reset is Some {
        text::text_order_is_strict(five_reset->0, five_reset->0);
        if seven_reset is Some {
            text::text_order_is_strict(five_reset->0, seven_reset->0);
        }
    }
    if seven_reset is Some {
        text::text_order_is_strict(seven_reset->0, seven_reset->0);
    }
}

/// A parked manager is let go exactly when it is known that it can go on: neither shared window is at its
/// limit any more, and it has not spent its fallback while the reset it waits for is still ahead; or, where
/// nothing can be read, the reset that was written down has come.
pub proof fn a_wait_ends_when_quota_is_back(r: SupervisorView, quota: Option<QuotaView>, liveness: Seq<char>, now: Instant)
    ensures
        ({
            let out = quota matches Some(q) && ((q.five_hour is Some && q.five_hour->0.exhausted) || (q.seven_day is Some
                && q.seven_day->0.exhausted));
            let come = |t: Seq<char>| match time::rfc3339(t) {
                Some(x) => x.secs < now.secs || (x.secs == now.secs && x.nanos <= now.nanos),
                None => true,
            };
            let ahead = r.quota_reset_at is Some && !come(r.quota_reset_at->0);
            let hot = r.cooldown_until is Some && !come(r.cooldown_until->0);
            decided(r, quota, liveness, now) is Resume <==> {
                &&& r.bot_id is Some
                &&& r.status == "waiting_quota"@
                &&& quota is None ==> r.quota_reset_at is Some && !ahead
                &&& quota is Some ==> !out && !(r.fallback_tries >= 1 && hot && ahead)
            }
        }),
{
}

/// The manager leaves `fable` exactly when less than five percent of its bucket is left, and comes back to
/// it exactly when at least twenty percent is left and the cooldown is over. A bucket whose reset has
/// passed is full. Nobody is switched who is not set up, is parked, or has a shared window at its limit,
/// and a switch in the middle of a turn is put off.
pub proof fn fable_is_left_when_low_and_returned_to_when_full(r: SupervisorView, quota: Option<QuotaView>, liveness: Seq<char>, now: Instant)
    ensures
        ({
            let d = decided(r, quota, liveness, now);
            let q = quota->0;
            let w = q.fable->0;
            let out = (q.five_hour is Some && q.five_hour->0.exhausted) || (q.seven_day is Some && q.seven_day->0.exhausted);
            let come = |t: Seq<char>| match time::rfc3339(t) {
                Some(x) => x.secs < now.secs || (x.secs == now.secs && x.nanos <= now.nanos),
                None => true,
            };
            let full = w.resets_at is Some && come(w.resets_at->0);
            let asked = r.bot_id is Some && quota is Some && !out && r.status != "waiting_quota"@ && q.fable is Some;
            let on_fable = r.active_model == "fable"@;
            let low = !full && w.used > 95_000_000;
            let plenty = full || w.used <= 80_000_000;
            let cool = r.cooldown_until is None || come(r.cooldown_until->0);
            let due = asked && if on_fable {
                low
            } else {
                plenty && cool
            };
            let free = liveness == "idle"@ || liveness == "stopped"@;
            let model = if on_fable {
                "opus"@
            } else {
                "fable"@
            };
            &&& d is SwitchTo <==> due && free
            &&& d is Defer <==> due && !free
            &&& (d matches DecisionView::SwitchTo { model: m, reason, reset_at } ==> m == model && (on_fable ==> reason
                == "fable 剩餘額度低於 5%"@ && reset_at == w.resets_at) && (!on_fable ==> reset_at is None && reason
                == if full {
                "fable 週額度已重置"@
            } else {
                "fable 剩餘額度回到 "@ + text::decimal(w.shown_left as int) + "%"@
            }))
            &&& (d matches DecisionView::Defer { model: m } ==> m == model)
        }),
{
}

/// Nothing is decided about a manager that is not set up.
pub proof fn nobody_is_moved_before_setup(r: SupervisorView, quota: Option<QuotaView>, liveness: Seq<char>, now: Instant)
    requires
        r.bot_id is None,
    ensures
        decided(r, quota, liveness, now) is Keep,
{
}

} // verus!
