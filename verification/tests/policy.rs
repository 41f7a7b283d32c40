//! Which model the manager runs on, and when it waits.
use agm_supervisor::policy::{decide, Decision, Quota, Window};
use agm_supervisor::rows::Supervisor;
use agm_supervisor::store;
use agm_supervisor::store::Store;
use agm_supervisor::time::Instant;

const NOW: &str = "2026-09-11T06:30:00Z";
const EARLIER: &str = "2026-09-11T06:00:00Z";
const LATER: &str = "2026-09-11T09:00:00Z";
const MUCH_LATER: &str = "2026-09-14T04:00:00Z";

fn now() -> Instant {
    let t = chrono::DateTime::parse_from_rfc3339(NOW).unwrap();
    Instant { secs: t.timestamp(), nanos: t.timestamp_subsec_nanos() }
}

fn w(used: f64, resets: &str) -> Option<Window> {
    Some(Window {
        used: (used * 1_000_000.0).ceil() as i64,
        shown_left: (100.0 - used).max(0.0).round() as i64,
        resets_at: Some(resets.into()),
        exhausted: used >= 95.0 && resets > NOW,
    })
}

fn quota(five_hour: Option<Window>, seven_day: Option<Window>, fable: Option<Window>) -> Quota {
    Quota { five_hour, seven_day, fable }
}

fn sup(model: &str, status: &str, cooldown: Option<&str>, reset: Option<&str>) -> Supervisor {
    let mut s = store::get_or_init(&mut Store::new(), "t");
    s.bot_id = Some("b1".into());
    s.active_model = model.into();
    s.generation = 2;
    s.status = status.into();
    s.cooldown_until = cooldown.map(String::from);
    s.quota_reset_at = reset.map(String::from);
    s.desired_running = 1;
    s
}

fn healthy() -> Quota {
    quota(w(24.0, LATER), w(40.0, MUCH_LATER), w(10.0, MUCH_LATER))
}

#[test]
fn no_reading_is_not_a_full_account() {
    assert_eq!(decide(&sup("fable", "", None, None), None, "idle", now()), Decision::Keep);
    assert_eq!(decide(&sup("opus", "", None, None), None, "idle", now()), Decision::Keep);
    assert_eq!(decide(&sup("opus", "waiting_quota", None, Some(EARLIER)), None, "idle", now()), Decision::Resume);
    assert_eq!(decide(&sup("opus", "waiting_quota", None, Some(LATER)), None, "idle", now()), Decision::Keep);
}

#[test]
fn a_critical_shared_window_parks_the_manager_with_the_nearest_reset() {
    let q = quota(w(97.0, LATER), w(96.0, MUCH_LATER), w(10.0, MUCH_LATER));
    assert_eq!(
        decide(&sup("fable", "", None, None), Some(&q), "idle", now()),
        Decision::WaitQuota { reset_at: Some(LATER.into()) }
    );
    assert_eq!(decide(&sup("fable", "waiting_quota", None, Some(LATER)), Some(&q), "idle", now()), Decision::Keep);
    let q2 = quota(w(97.0, MUCH_LATER), None, None);
    assert_eq!(
        decide(&sup("fable", "waiting_quota", None, Some(LATER)), Some(&q2), "idle", now()),
        Decision::WaitQuota { reset_at: Some(MUCH_LATER.into()) }
    );
}

#[test]
fn resets_in_different_precisions_are_compared_by_instant() {
    let secs = "2026-09-11T09:00:00Z";
    let millis_later = "2026-09-11T09:00:00.500Z";
    let q = quota(w(97.0, millis_later), w(96.0, secs), None);
    assert_eq!(
        decide(&sup("fable", "", None, None), Some(&q), "idle", now()),
        Decision::WaitQuota { reset_at: Some(secs.into()) }
    );
    let q = quota(w(97.0, "2026-09-11T09:00:00.000Z"), None, None);
    assert_eq!(decide(&sup("fable", "waiting_quota", None, Some(secs)), Some(&q), "idle", now()), Decision::Keep);
    assert_eq!(
        decide(&sup("fable", "waiting_quota", None, Some(secs)), Some(&quota(w(97.0, millis_later), None, None)), "idle", now()),
        Decision::WaitQuota { reset_at: Some(millis_later.into()) }
    );
}

#[test]
fn a_shared_limit_outranks_any_candidate_switch() {
    let q = quota(w(99.0, LATER), w(40.0, MUCH_LATER), w(96.0, MUCH_LATER));
    assert!(matches!(decide(&sup("fable", "", None, None), Some(&q), "idle", now()), Decision::WaitQuota { .. }));
}

#[test]
fn the_wait_ends_when_the_shared_windows_are_back() {
    assert_eq!(decide(&sup("fable", "waiting_quota", None, Some(LATER)), Some(&healthy()), "idle", now()), Decision::Resume);
    let stale = quota(w(99.0, EARLIER), w(40.0, MUCH_LATER), w(10.0, MUCH_LATER));
    assert_eq!(decide(&sup("fable", "waiting_quota", None, Some(EARLIER)), Some(&stale), "idle", now()), Decision::Resume);
    let mut both = sup("opus", "waiting_quota", Some(LATER), Some(LATER));
    both.fallback_tries = 1;
    assert_eq!(decide(&both, Some(&healthy()), "idle", now()), Decision::Keep);
    let mut over = sup("opus", "waiting_quota", Some(EARLIER), Some(LATER));
    over.fallback_tries = 1;
    assert_eq!(decide(&over, Some(&healthy()), "idle", now()), Decision::Resume);
}

#[test]
fn fable_nearly_empty_moves_to_opus_only_when_idle() {
    let q = quota(w(24.0, LATER), w(40.0, MUCH_LATER), w(96.0, MUCH_LATER));
    assert_eq!(
        decide(&sup("fable", "", None, None), Some(&q), "idle", now()),
        Decision::SwitchTo { model: "opus", reason: "fable 剩餘額度低於 5%".into(), reset_at: Some(MUCH_LATER.into()) }
    );
    assert!(matches!(decide(&sup("fable", "", None, None), Some(&q), "stopped", now()), Decision::SwitchTo { model: "opus", .. }));
    for l in ["busy", "starting"] {
        assert_eq!(decide(&sup("fable", "", None, None), Some(&q), l, now()), Decision::Defer { model: "opus" }, "{l}");
    }
    let edge = quota(w(24.0, LATER), w(40.0, MUCH_LATER), w(95.0, MUCH_LATER));
    assert_eq!(decide(&sup("fable", "", None, None), Some(&edge), "idle", now()), Decision::Keep);
}

#[test]
fn a_stale_fable_reading_past_its_reset_does_not_chase_the_manager_off_fable() {
    let stale = quota(w(24.0, LATER), w(40.0, MUCH_LATER), w(98.0, EARLIER));
    assert_eq!(decide(&sup("fable", "", None, None), Some(&stale), "idle", now()), Decision::Keep);
}

#[test]
fn opus_comes_home_once_fable_is_back_and_the_cooldown_is_over() {
    let back = quota(w(24.0, LATER), w(40.0, MUCH_LATER), w(70.0, MUCH_LATER));
    assert_eq!(
        decide(&sup("opus", "", Some(EARLIER), Some(EARLIER)), Some(&back), "idle", now()),
        Decision::SwitchTo { model: "fable", reason: "fable 剩餘額度回到 30%".into(), reset_at: None }
    );
    assert!(matches!(decide(&sup("opus", "", None, None), Some(&back), "stopped", now()), Decision::SwitchTo { model: "fable", .. }));
    assert_eq!(decide(&sup("opus", "", Some(LATER), None), Some(&back), "idle", now()), Decision::Keep);
    assert_eq!(decide(&sup("opus", "", Some(EARLIER), None), Some(&back), "busy", now()), Decision::Defer { model: "fable" });
    let low = quota(w(24.0, LATER), w(40.0, MUCH_LATER), w(81.0, MUCH_LATER));
    assert_eq!(decide(&sup("opus", "", None, None), Some(&low), "idle", now()), Decision::Keep);
    let edge = quota(w(24.0, LATER), w(40.0, MUCH_LATER), w(80.0, MUCH_LATER));
    assert!(matches!(decide(&sup("opus", "", None, None), Some(&edge), "idle", now()), Decision::SwitchTo { model: "fable", .. }));
}

#[test]
fn a_passed_fable_reset_counts_as_refilled_even_if_the_reading_is_stale() {
    let stale = quota(w(24.0, LATER), w(40.0, MUCH_LATER), w(98.0, EARLIER));
    assert_eq!(
        decide(&sup("opus", "", Some(EARLIER), Some(EARLIER)), Some(&stale), "idle", now()),
        Decision::SwitchTo { model: "fable", reason: "fable 週額度已重置".into(), reset_at: None }
    );
}

#[test]
fn without_a_fable_reading_nobody_moves() {
    let q = quota(w(24.0, LATER), w(40.0, MUCH_LATER), None);
    assert_eq!(decide(&sup("fable", "", None, None), Some(&q), "idle", now()), Decision::Keep);
    assert_eq!(decide(&sup("opus", "", None, None), Some(&q), "idle", now()), Decision::Keep);
}
