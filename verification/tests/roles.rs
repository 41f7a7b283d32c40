//! Who receives an event, who may deliver it and who may close it.
use agm_supervisor::coalesce::coalesce_patrol;
use agm_supervisor::inbox;
use agm_supervisor::migration;
use agm_supervisor::migration::{Column, Present};
use agm_supervisor::owned;
use agm_supervisor::role_inbox::{ack, classify, due_for, list_for, mark_delivered, wake_reason, AckOutcome};
use agm_supervisor::roles;
use agm_supervisor::roles::{get, known_route, route, set_env, Role, Route};
use agm_supervisor::rows::InboxEvent;
use agm_supervisor::store;
use agm_supervisor::store::Store;
use agm_supervisor::watchdog;

const T: &str = "2026-09-13T00:00:00Z";
const LATER: &str = "2999-01-01T00:00:00Z";

fn pool() -> Store {
    let mut s = Store::new();
    store::get_or_init(&mut s, T);
    s
}

fn push(s: &mut Store, key: &str, kind: &str, payload: &str) -> Option<String> {
    inbox::push_inbox(s, T, &format!("id-{key}"), key, kind, None, None, None, payload)
}

fn responder(wake: bool) -> Route {
    Route { role: Role::Responder, wake }
}

fn patrol(wake: bool) -> Route {
    Route { role: Role::Patrol, wake }
}

#[test]
fn the_routing_table_sends_bot_business_to_the_responder_and_system_faults_to_patrol() {
    let p = "{}";
    for kind in [
        "approval_requested",
        "mission_question",
        "mission_created",
        "mission_answered",
        "mission_resumed",
        "mission_identity_switch",
        "mission_paused",
        "mission_cancelled",
    ] {
        assert_eq!(route(kind, p, None), responder(true), "{kind}");
    }
    assert_eq!(route("assignment_completed", r#"{"needs_review": true}"#, None), responder(true));
    assert_eq!(route("assignment_failed", r#"{"needs_review": true}"#, Some("patrol")), patrol(true), "巡檢自己的例行派工回到巡檢");
    for kind in ["assignment_noticed", "assignment_queued", "assignment_quota_blocked", "assignment_quota_resumed"] {
        assert_eq!(route(kind, p, None), responder(false), "{kind} 只記錄、歸驗收角色");
        assert_eq!(route(kind, p, Some("patrol")).role, Role::Patrol, "{kind} 跟著交辦的驗收角色");
    }
    assert_eq!(route("assignment_undeliverable", p, None), responder(true), "送不進去要驗收角色決定");
    assert_eq!(route("assignment_undeliverable", p, Some("patrol")), patrol(true));
    for kind in ["incident_opened", "bot_restart_failed", "supervisor_restart_retry", "responder_watchdog_gave_up", "brand_new_kind"] {
        assert_eq!(route(kind, p, None), patrol(true), "{kind}");
    }
    assert_eq!(route("watchdog_gave_up", p, None), responder(true));
    let exhausted = r#"{"incident": {"kind": "notify_exhausted"}}"#;
    assert_eq!(route("incident_opened", exhausted, None), responder(true));
    assert_eq!(route("incident_resolved", exhausted, None), responder(false));
    assert_eq!(route("incident_opened", r#"{"incident": {"kind": "host_disconnected"}}"#, None).role, Role::Patrol);
    assert_eq!(route("incident_resolved", p, None), patrol(false), "恢復不叫醒人");
    assert!(!route("health_changed", r#"{"manager_health": {"status": "healthy"}}"#, None).wake);
    assert!(route("health_changed", r#"{"manager_health": {"status": "degraded"}}"#, None).wake);
    let half = |s: &str| format!(r#"{{"manager_health": {{"status": "healthy"}}, "responder_health": {{"status": "{s}"}}}}"#);
    assert_eq!(route("health_changed", &half("degraded"), None), patrol(true), "協調者倒了要叫醒巡檢");
    assert!(!route("health_changed", &half("healthy"), None).wake);
    assert_eq!(route("bot_request", r#"{"to_role": "patrol", "wake": false}"#, None), patrol(false));
    assert_eq!(route("bot_request", p, None), responder(true));
}

#[test]
fn every_kind_written_to_the_inbox_has_its_own_routing_branch() {
    for kind in [
        "agm_cli_stale",
        "approval_requested",
        "assignment_completed",
        "assignment_failed",
        "assignment_noticed",
        "assignment_queued",
        "assignment_quota_blocked",
        "assignment_quota_resumed",
        "assignment_undeliverable",
        "bot_request",
        "bot_restart_failed",
        "health_changed",
        "incident_opened",
        "incident_resolved",
        "mission_answered",
        "mission_cancelled",
        "mission_created",
        "mission_identity_switch",
        "mission_paused",
        "mission_question",
        "mission_resumed",
        "ops_alert",
        "pane_orphaned",
        "pane_unowned",
        "responder_bot_missing",
        "responder_watchdog_gave_up",
        "supervisor_restart_retry",
        "watchdog_gave_up",
    ] {
        assert!(known_route(kind, "{}", None).is_some(), "{kind} 沒有明寫的分支");
    }
    assert_eq!(known_route("brand_new_kind", "{}", None), None);
    assert_eq!(known_route("ops_alert", "{}", None), Some(patrol(true)));
}

#[test]
fn whatever_the_daemon_writes_itself_has_a_routing_branch() {
    let mut s = pool();
    owned::alert(&mut s, T, "e1", "supervisor_bot_delete_refused", "b1", "somebody asked");
    watchdog::report_gave_up(&mut s, T, "e2", "it died");
    assert!(agm_supervisor::responder::report_missing(&mut s, T, "e3", "b-resp"));
    get(&mut s, T, Role::Responder);
    assert!(agm_supervisor::responder::report_gave_up(&mut s, T, "e4", "it died"));
    let mut kinds: Vec<&str> = s.inbox.iter().map(|e| e.kind.as_str()).collect();
    kinds.sort();
    assert_eq!(kinds, vec!["ops_alert", "responder_bot_missing", "responder_watchdog_gave_up", "watchdog_gave_up"]);
    for e in &s.inbox {
        assert!(known_route(&e.kind, &e.payload_json, None).is_some(), "{}", e.kind);
    }
}

fn wanted() -> Vec<Column> {
    let mut w = migration::columns_before_tables();
    w.extend(migration::columns_after_tables());
    w.extend(migration::columns_after_roles());
    w
}

fn everything() -> Vec<Present> {
    wanted().iter().map(|c| Present { table: c.table.to_string(), name: c.name.to_string() }).collect()
}

/// The columns of a database from before there were two roles that an upgrade still has to add.
fn pre_dual_columns() -> Vec<Column> {
    let old: Vec<Present> = everything()
        .into_iter()
        .filter(|c| !(c.table == "supervisor_inbox" && ["role", "wake", "claimed_by", "acked_by", "merged_into"].contains(&c.name.as_str())))
        .collect();
    migration::missing(&wanted(), &old)
}

#[test]
fn migration_is_reentrant_and_old_rows_get_classified() {
    let mut s = pool();
    push(&mut s, "k1", "approval_requested", "{}").unwrap();
    push(&mut s, "k2", "incident_resolved", "{}").unwrap();
    let nothing = migration::missing(&wanted(), &everything());
    assert!(nothing.is_empty());
    migration::migrate(&mut s, &nothing);
    migration::migrate(&mut s, &nothing);
    assert_eq!(classify(&mut s), 2);
    assert_eq!(classify(&mut s), 0, "分類過的不會再分");
    let rows: Vec<(&str, Option<&str>, Option<i64>)> = s.inbox.iter().map(|e| (e.kind.as_str(), e.role.as_deref(), e.wake)).collect();
    assert_eq!(rows, vec![("approval_requested", Some("responder"), Some(1)), ("incident_resolved", Some("patrol"), Some(0))]);
}

fn row(key: &str, kind: &str, state: &str, turn: Option<&str>, attempts: i64, delivered: Option<&str>) -> InboxEvent {
    InboxEvent {
        id: key.into(),
        event_key: key.into(),
        assignment_id: None,
        bot_id: None,
        turn_id: None,
        kind: kind.into(),
        payload_json: "{}".into(),
        state: state.into(),
        notify_turn_id: turn.map(String::from),
        notify_delivery: None,
        notify_attempts: attempts,
        notify_next_at: None,
        notify_error: None,
        delivered_at: delivered.map(String::from),
        created_at: "2026-09-01T00:00:00Z".into(),
        updated_at: "2026-09-01T00:00:00Z".into(),
        role: None,
        wake: None,
        claimed_by: None,
        acked_by: None,
        merged_into: None,
    }
}

fn pre_dual_pool() -> Store {
    let mut s = pool();
    s.inbox = vec![
        row("old-delivered", "approval_requested", "delivered", Some("t-old-1"), 1, Some("2026-09-01T00:00:00Z")),
        row("old-recovered", "assignment_completed", "pending", Some("t-old-2"), 2, Some("2026-09-01T00:05:00Z")),
        row("old-handled", "approval_requested", "handled", None, 0, None),
        row("old-untouched", "approval_requested", "pending", None, 0, None),
        row("old-deferred-unsent", "approval_requested", "pending", None, 3, None),
    ];
    s
}

fn find<'a>(s: &'a Store, key: &str) -> &'a InboxEvent {
    s.inbox.iter().find(|e| e.event_key == key).unwrap()
}

fn keys(v: Vec<InboxEvent>) -> Vec<String> {
    let mut k: Vec<String> = v.into_iter().map(|e| e.event_key).collect();
    k.sort();
    k
}

#[test]
fn upgrading_a_real_pre_dual_database_keeps_the_old_managers_events_with_patrol() {
    let mut s = pre_dual_pool();
    let added = pre_dual_columns();
    assert_eq!(added.len(), 5);
    migration::migrate(&mut s, &added);
    migration::migrate(&mut s, &migration::missing(&wanted(), &everything()));
    classify(&mut s);

    for key in ["old-delivered", "old-recovered"] {
        let e = find(&s, key);
        assert_eq!(e.claimed_by.as_deref(), Some("patrol"), "{key} 舊 AGM 已經收走了");
        assert_eq!(e.role.as_deref(), Some("responder"), "{key} 的種類照新路由表仍屬協調者");
    }
    for key in ["old-untouched", "old-deferred-unsent", "old-handled"] {
        let e = find(&s, key);
        assert_eq!(e.claimed_by, None, "{key} 沒有送達證據，不能記給巡檢（attempts 不算）");
        assert_eq!(e.role.as_deref(), Some("responder"));
    }

    set_env(&mut s, T, Role::Responder, "resp", "proj", "/tmp");
    assert_eq!(keys(due_for(&s, Role::Responder, true, LATER, 0)), vec!["old-deferred-unsent", "old-untouched"], "沒送出去過的不再燒巡檢的 fable");
    assert_eq!(keys(due_for(&s, Role::Patrol, true, LATER, 5)), vec!["old-recovered"], "recover 成 pending 的那件回到原收件者");

    let id = "old-recovered".to_string();
    assert_eq!(mark_delivered(&mut s, T, &[id.clone()], Role::Responder, "t-new", "ok"), 0);
    assert_eq!(ack(&mut s, T, &id, Some(Role::Responder), true), AckOutcome::ClaimedByOther("patrol".into()));
    assert_eq!(ack(&mut s, T, &id, Some(Role::Patrol), true), AckOutcome::Acked);
}

#[test]
fn events_mis_claimed_by_the_old_backfill_are_released_without_touching_real_claims() {
    let mut s = pre_dual_pool();
    migration::migrate(&mut s, &pre_dual_columns());
    s.inbox[4].claimed_by = Some("patrol".into());
    for (key, state, claimed, turn, delivered, acked) in [
        ("live-resp-delivered", "delivered", "responder", Some("t-r"), Some("2026-09-14T00:00:00Z"), None),
        ("live-patrol-acked", "handled", "patrol", None, None, Some("patrol")),
    ] {
        let mut e = row(key, "approval_requested", state, turn, 0, delivered);
        e.claimed_by = Some(claimed.into());
        e.acked_by = acked.map(String::from);
        s.inbox.push(e);
    }
    migration::migrate(&mut s, &vec![]);
    migration::migrate(&mut s, &vec![]);

    assert_eq!(find(&s, "old-deferred-unsent").claimed_by, None, "沒送達證據的誤歸屬被放回");
    assert_eq!(find(&s, "old-recovered").claimed_by.as_deref(), Some("patrol"), "有送達證據的不動");
    assert_eq!(find(&s, "live-resp-delivered").claimed_by.as_deref(), Some("responder"), "協調者真的收走的不動");
    let acked = find(&s, "live-patrol-acked");
    assert_eq!((acked.claimed_by.as_deref(), acked.state.as_str()), (Some("patrol"), "handled"), "已結案的不動");
}

fn kinds(v: &[InboxEvent]) -> Vec<&str> {
    v.iter().map(|e| e.kind.as_str()).collect()
}

#[test]
fn a_responder_event_is_only_due_for_patrol_until_a_responder_exists() {
    let mut s = pool();
    push(&mut s, "k1", "approval_requested", "{}").unwrap();
    push(&mut s, "k2", "incident_opened", "{}").unwrap();
    classify(&mut s);
    assert_eq!(due_for(&s, Role::Patrol, false, LATER, 5).len(), 2, "舊部署：巡檢收全部");
    assert_eq!(kinds(&due_for(&s, Role::Patrol, true, LATER, 5)), vec!["incident_opened"]);
    assert_eq!(kinds(&due_for(&s, Role::Responder, true, LATER, 5)), vec!["approval_requested"]);
    for e in s.inbox.iter_mut() {
        e.notify_attempts = 99;
    }
    assert_eq!(due_for(&s, Role::Responder, true, LATER, 5).len(), 1);
    assert!(due_for(&s, Role::Patrol, true, LATER, 5).is_empty());
}

#[test]
fn one_event_is_claimed_and_acked_by_exactly_one_role() {
    let mut s = pool();
    let id = push(&mut s, "k1", "approval_requested", "{}").unwrap();
    classify(&mut s);
    let ids = vec![id.clone()];
    assert_eq!(mark_delivered(&mut s, T, &ids, Role::Responder, "t1", "ok"), 1);
    assert_eq!(mark_delivered(&mut s, T, &ids, Role::Patrol, "t2", "ok"), 0, "已被協調者 claim");
    assert_eq!(ack(&mut s, T, &id, Some(Role::Patrol), true), AckOutcome::ClaimedByOther("responder".into()));
    assert_eq!(ack(&mut s, T, &id, Some(Role::Responder), true), AckOutcome::Acked);
    assert_eq!(ack(&mut s, T, &id, Some(Role::Responder), true), AckOutcome::AlreadyHandled);
    assert_eq!(ack(&mut s, T, "nope", None, true), AckOutcome::NotFound);
    assert_eq!(find(&s, "k1").acked_by.as_deref(), Some("responder"));
}

#[test]
fn concurrent_acks_from_both_roles_close_it_once() {
    for actors in [[None, Some(Role::Responder)], [Some(Role::Responder), None]] {
        let mut s = pool();
        let id = push(&mut s, "k1", "approval_requested", "{}").unwrap();
        classify(&mut s);
        let outcomes = actors.map(|a| ack(&mut s, T, &id, a, true));
        assert_eq!(outcomes.iter().filter(|o| **o == AckOutcome::Acked).count(), 1, "{outcomes:?}");
    }
}

#[test]
fn patrol_folds_repeated_health_and_flapping_incidents_before_waking() {
    let mut s = pool();
    for (i, status) in ["degraded", "healthy", "degraded"].iter().enumerate() {
        push(&mut s, &format!("health:{i}"), "health_changed", &format!(r#"{{"manager_health": {{"status": "{status}"}}}}"#)).unwrap();
        s.inbox[i].created_at = format!("2026-09-13T00:00:0{i}Z");
    }
    for (key, kind) in [
        ("incident:I1:opened", "incident_opened"),
        ("incident:I1:resolved", "incident_resolved"),
        ("incident:I2:opened", "incident_opened"),
    ] {
        push(&mut s, key, kind, "{}").unwrap();
        s.inbox.last_mut().unwrap().created_at = "2026-09-14T00:00:00Z".into();
    }
    classify(&mut s);
    assert_eq!(coalesce_patrol(&mut s, T), 4, "兩筆舊 health + 一對抖動");
    let due: Vec<String> = due_for(&s, Role::Patrol, true, LATER, 5).into_iter().map(|e| e.event_key).collect();
    assert_eq!(due, vec!["health:2", "incident:I2:opened"]);
    assert_eq!(get(&mut s, T, Role::Patrol).merged, 4);
    assert_eq!(coalesce_patrol(&mut s, T), 0, "再跑一次不會重複合併");
    for e in s.inbox.iter().filter(|e| e.state == "handled") {
        assert_eq!((e.acked_by.as_deref(), e.merged_into.is_some()), (Some("daemon"), true), "{}", e.event_key);
    }
    assert_eq!(s.inbox.iter().filter(|e| e.state == "handled").count(), 4);
}

#[test]
fn an_end_that_was_folded_as_an_old_health_change_leaves_its_opening() {
    let mut s = pool();
    for (i, (key, kind)) in
        [("incident:I1:opened", "incident_opened"), ("incident:I1:resolved", "health_changed"), ("health:9", "health_changed")].iter().enumerate()
    {
        push(&mut s, key, kind, "{}").unwrap();
        s.inbox[i].created_at = format!("2026-09-13T00:00:0{i}Z");
    }
    assert_eq!(coalesce_patrol(&mut s, T), 1);
    let states: Vec<&str> = s.inbox.iter().map(|e| e.state.as_str()).collect();
    assert_eq!(states, vec!["pending", "handled", "pending"]);
    assert_eq!(s.inbox[1].merged_into.as_deref(), Some("id-health:9"));
}

#[test]
fn a_role_is_what_its_name_says() {
    assert_eq!(Role::parse("patrol"), Some(Role::Patrol));
    assert_eq!(Role::parse("responder").map(Role::as_str), Some("responder"));
    assert_eq!(Role::parse("Patrol"), None);
    let mut s = pool();
    assert!(!roles::responder_configured(&mut s, T));
    set_env(&mut s, T, Role::Responder, "resp", "proj", "/tmp");
    assert!(roles::responder_configured(&mut s, T));
    assert_eq!(roles::bot_for(&mut s, T, Role::Responder).as_deref(), Some("resp"));
    assert_eq!(roles::bot_for(&mut s, T, Role::Patrol), None);
    assert_eq!(roles::role_of_bot(&mut s, T, "resp"), Some(Role::Responder));
    assert_eq!(roles::role_of_bot(&mut s, T, "someone"), None);
    let mut bare = Store::new();
    assert_eq!(roles::bot_for(&mut bare, T, Role::Patrol), None);
    assert!(bare.supervisor.is_some() && bare.roles.is_empty());
    assert_eq!(roles::role_of_bot(&mut bare, T, "someone"), None);
    assert_eq!(bare.roles.len(), 1);
}

#[test]
fn the_reason_for_a_wake_counts_the_kinds() {
    let mut s = pool();
    push(&mut s, "a", "incident_opened", "{}");
    push(&mut s, "b", "bot_restart_failed", "{}");
    push(&mut s, "c", "incident_opened", "{}");
    assert_eq!(wake_reason(&s.inbox), "incident_opened×2, bot_restart_failed");
    assert_eq!(wake_reason(&[]), "");
    classify(&mut s);
    assert_eq!(list_for(&s, Some(Role::Patrol), false, 2).len(), 2);
    assert_eq!(list_for(&s, Some(Role::Responder), true, 10).len(), 0);
}

#[test]
fn giving_up_on_a_role_is_told_once() {
    let mut s = pool();
    get(&mut s, T, Role::Responder);
    roles::set_watchdog(&mut s, T, Role::Responder, 3, Some(LATER), Some("no pane"));
    assert!(roles::mark_watchdog_gave_up(&mut s, T, Role::Responder, "five tries"));
    assert!(!roles::mark_watchdog_gave_up(&mut s, T, Role::Responder, "again"));
    roles::record_wake(&mut s, T, Role::Responder, 3, "approval_requested×3");
    roles::count_duplicate(&mut s, T, Role::Responder);
    let r = get(&mut s, T, Role::Responder);
    assert_eq!((r.wakes, r.events_delivered, r.duplicates), (1, 3, 1));
    assert_eq!(r.last_wake_reason.as_deref(), Some("approval_requested×3"));
}
