//! Bringing the manager back.
use agm_supervisor::inbox;
use agm_supervisor::rows::Supervisor;
use agm_supervisor::store;
use agm_supervisor::store::Store;
use agm_supervisor::time::Instant;
use agm_supervisor::watchdog;
use agm_supervisor::watchdog::{backoff_secs, plan, plan_at, plan_for, Plan, Step, Watched};

fn at(t: &str) -> Instant {
    let t = chrono::DateTime::parse_from_rfc3339(t).unwrap();
    Instant { secs: t.timestamp(), nanos: t.timestamp_subsec_nanos() }
}

fn sup(wanted: bool, status: &str, attempts: i64, next: Option<&str>) -> Supervisor {
    let mut s = store::get_or_init(&mut Store::new(), "now");
    s.bot_id = Some("b1".into());
    s.generation = 1;
    s.status = status.into();
    s.desired_running = i64::from(wanted);
    s.watchdog_attempts = attempts;
    s.watchdog_next_at = next.map(String::from);
    s
}

#[test]
fn the_backoff_is_30_60_120_300_and_then_flat() {
    assert_eq!([0, 1, 2, 3, 4, 9].map(backoff_secs), [30, 60, 120, 300, 300, 300]);
}

#[test]
fn a_manager_the_user_stopped_stays_stopped() {
    assert_eq!(plan(&sup(false, "", 0, None), "stopped", |_: &str| true), Plan::Idle);
    let mut s = sup(false, "", 0, None);
    s.generation = 0;
    assert_eq!(plan(&s, "stopped", |_: &str| true), Plan::Idle);
}

#[test]
fn waiting_for_quota_is_not_an_outage() {
    assert_eq!(plan(&sup(true, "waiting_quota", 0, None), "stopped", |_: &str| true), Plan::Idle);
}

#[test]
fn a_running_manager_needs_nothing() {
    for l in ["idle", "busy", "starting"] {
        assert_eq!(plan(&sup(true, "", 2, Some("x")), l, |_: &str| true), Plan::Idle, "{l}");
    }
}

#[test]
fn the_first_observation_schedules_and_the_deadline_starts() {
    assert_eq!(plan(&sup(true, "", 0, None), "stopped", |_: &str| true), Plan::Wait { schedule: true });
    assert_eq!(plan(&sup(true, "", 0, Some("later")), "stopped", |_: &str| false), Plan::Wait { schedule: false });
    assert_eq!(plan(&sup(true, "", 0, Some("earlier")), "stopped", |_: &str| true), Plan::Start);
}

#[test]
fn five_failures_and_it_stops_trying() {
    assert_eq!(plan(&sup(true, "", 4, Some("earlier")), "stopped", |_: &str| true), Plan::Start);
    assert_eq!(plan(&sup(true, "", 5, None), "stopped", |_: &str| true), Plan::GaveUp);
    assert_eq!(plan(&sup(true, "", 5, Some("earlier")), "stopped", |_: &str| true), Plan::GaveUp);
}

#[test]
fn a_start_that_succeeded_and_then_died_still_ends_in_give_up_on_every_later_tick() {
    let after_ok = sup(true, "", 5, Some("2026-09-13T00:00:00Z"));
    for _ in 0..10 {
        assert_eq!(plan(&after_ok, "stopped", |_: &str| true), Plan::GaveUp, "no more automatic starts");
    }
    assert_eq!(plan(&after_ok, "idle", |_: &str| true), Plan::Idle);
    assert_eq!(plan(&after_ok, "busy", |_: &str| true), Plan::Idle);
    assert_eq!(plan(&sup(true, "", 0, None), "stopped", |_: &str| true), Plan::Wait { schedule: true });
}

#[test]
fn a_failed_inbox_write_is_retried_until_exactly_one_event_exists() {
    let mut s = Store::new();
    store::get_or_init(&mut s, "t0");
    assert!(store::mark_watchdog_gave_up(&mut s, "t0", "boom"), "the mark is there and the event is not");
    assert_eq!(inbox::open_inbox_count(&s), 0);
    for i in 0..3 {
        let told = watchdog::report_gave_up(&mut s, "t1", &format!("e{i}"), "boom");
        assert_eq!(told, i == 0);
    }
    let keys: Vec<String> = inbox::inbox(&s, 10).into_iter().map(|e| e.event_key).collect();
    assert_eq!(keys, ["watchdog:gave_up:t0"]);
}

#[test]
fn a_dead_manager_is_scheduled_started_counted_and_given_up() {
    let mut s = Store::new();
    store::get_or_init(&mut s, "t");
    store::set_env(&mut s, "t", "b1", "p1", "/agm");
    store::set_desired_running(&mut s, "t", true).unwrap();
    let mut now = at("2026-09-12T10:00:00Z");
    assert_eq!(watchdog::tick(&mut s, now, "e", "stopped"), Step::Nothing);
    let row = store::get_or_init(&mut s, "t");
    assert_eq!(row.watchdog_next_at.as_deref(), Some("2026-09-12T10:00:30.000Z"), "the wait is written down");
    assert!(!watchdog::still_due(&s, "stopped", now));
    for attempt in 1..=5 {
        now = now.later(300);
        assert!(watchdog::still_due(&s, "stopped", now));
        assert_eq!(watchdog::tick(&mut s, now, "e", "stopped"), Step::Start { attempt });
        if attempt < 5 {
            assert!(!watchdog::start_failed(&mut s, now, "e", attempt, "沒有 pane"));
            let row = store::get_or_init(&mut s, "t");
            assert_eq!(row.watchdog_attempts, attempt);
            assert_eq!(row.status_detail, Some(format!("watchdog 自動啟動失敗（第 {attempt} 次）：沒有 pane")));
        } else {
            watchdog::started(&mut s, now, attempt);
        }
    }
    now = now.later(600);
    assert_eq!(watchdog::tick(&mut s, now, "e6", "stopped"), Step::GaveUp { told: true });
    assert_eq!(watchdog::tick(&mut s, now, "e7", "stopped"), Step::GaveUp { told: false }, "told once");
    assert_eq!(inbox::open_inbox_count(&s), 1);
    assert_eq!(watchdog::tick(&mut s, now, "e8", "idle"), Step::Nothing);
    let row = store::get_or_init(&mut s, "t");
    assert_eq!((row.watchdog_attempts, row.watchdog_gave_up_at), (0, None), "seen answering, it is armed again");
    assert_eq!(watchdog::starting_detail(2), "watchdog 自動重新啟動（第 2 次）");
}

#[test]
fn a_fifth_failed_start_gives_up_at_once() {
    let mut s = Store::new();
    store::get_or_init(&mut s, "t");
    assert!(watchdog::start_failed(&mut s, at("2026-09-12T10:00:00Z"), "e", 5, "boom"));
    let row = store::get_or_init(&mut s, "t");
    assert_eq!((row.watchdog_attempts, row.watchdog_next_at), (5, None));
    assert_eq!(row.watchdog_last_error.as_deref(), Some("boom"));
}

#[test]
fn a_deadline_that_cannot_be_read_does_not_park_the_manager() {
    let w = Watched { configured: true, wanted: true, waiting_quota: false, attempts: 0, next_at: Some("rubbish") };
    assert_eq!(plan_at(w, "stopped", at("2026-09-12T10:00:00Z")), Plan::Start);
}

#[test]
fn the_first_tick_makes_the_row_of_the_manager() {
    let mut s = Store::new();
    assert_eq!(watchdog::tick(&mut s, at("2026-09-12T10:00:00Z"), "e", "stopped"), Step::Nothing);
    assert_eq!(s.supervisor.as_ref().map(|r| r.created_at.as_str()), Some("2026-09-12T10:00:00.000Z"));
    let mut s = Store::new();
    assert!(!watchdog::report_gave_up(&mut s, "t", "e", "boom"), "nobody was watched");
    assert!(s.supervisor.is_some() && s.inbox.is_empty());
}

#[test]
fn the_time_is_asked_for_only_where_it_matters_and_only_of_the_schedule() {
    let never = |t: &str| -> bool { panic!("asked about {t}") };
    assert_eq!(plan(&sup(false, "", 0, Some("x")), "stopped", never), Plan::Idle);
    assert_eq!(plan(&sup(true, "", 5, Some("x")), "stopped", never), Plan::GaveUp);
    assert_eq!(plan(&sup(true, "", 0, None), "stopped", never), Plan::Wait { schedule: true });
    let only = |t: &str| if t == "x" { true } else { panic!("asked about {t}") };
    assert_eq!(plan(&sup(true, "", 0, Some("x")), "stopped", only), Plan::Start);
    let w = Watched { configured: true, wanted: true, waiting_quota: false, attempts: 4, next_at: Some("x") };
    assert_eq!(plan_for(w, "stopped", only), Plan::Start);
    assert_eq!(plan_for(w, "busy", never), Plan::Idle);
}
