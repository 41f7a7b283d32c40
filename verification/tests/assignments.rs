//! Moves of an assignment, one at a time.
use agm_supervisor::assignments;
use agm_supervisor::assignments::{sql_list, STALLED_STATES};
use agm_supervisor::inbox;
use agm_supervisor::leases;
use agm_supervisor::reviews;
use agm_supervisor::rows::Assignment;
use agm_supervisor::store;
use agm_supervisor::store::Store;

const T: &str = "2026-09-12T10:00:00.000Z";
const NEXT: &str = "2026-09-12T10:05:00.000Z";

fn one() -> Store {
    let mut s = Store::new();
    store::get_or_init(&mut s, T);
    assignments::insert_assignment(&mut s, T, "a1", None, "b1", "c1", "work", &[], None, true).unwrap();
    s
}

fn row(s: &Store) -> Assignment {
    assignments::assignment(s, "a1").unwrap()
}

#[test]
fn states_are_quoted_for_a_query() {
    assert_eq!(sql_list(&STALLED_STATES), "'queued','delivered','unknown','awaiting_review'");
    assert_eq!(sql_list(&["one"]), "'one'");
    assert_eq!(sql_list(&[]), "");
    let all = leases::delivery_critical_anywhere_sql();
    assert!(all.starts_with("SELECT 1 FROM turns t JOIN conversations c") && all.ends_with(" LIMIT 1"));
    assert_eq!(leases::delivery_critical_except_sql().matches('?').count(), all.matches('?').count() + 1);
    assert!(leases::delivery_critical_for_bot_sql().starts_with("SELECT t.id FROM turns"));
}

#[test]
fn a_refusal_remembers_when_the_streak_began() {
    let mut s = one();
    assignments::defer_conflict(&mut s, T, "a1", NEXT, "bot is busy");
    assignments::defer_conflict(&mut s, NEXT, "a1", "2026-09-12T10:10:00.000Z", "still busy");
    let a = row(&s);
    assert_eq!((a.attempts, a.conflict_since.as_deref(), a.error.as_deref()), (2, Some(T), Some("still busy")));
    assert!(assignments::mark_undeliverable(&mut s, NEXT, "a1", "nobody home"));
    assert!(!assignments::mark_undeliverable(&mut s, NEXT, "a1", "nobody home"), "only what is queued");
    let a = row(&s);
    assert_eq!((a.status.as_str(), a.next_attempt_at, a.error.as_deref()), ("blocked", None, Some("nobody home")));
}

#[test]
fn only_what_is_delivered_waits_in_the_bots_queue() {
    let mut s = one();
    assert!(!assignments::block_stale_queue(&mut s, T, "a1", "too long"));
    assert!(assignments::mark_delivered(&mut s, T, "a1", "t1", "ok"));
    assert!(assignments::block_stale_queue(&mut s, T, "a1", "too long"));
    assert_eq!((row(&s).status.as_str(), row(&s).error.as_deref()), ("blocked", Some("too long")));
}

#[test]
fn what_waits_for_quota_is_put_off_and_counted() {
    let mut s = one();
    assignments::mark_delivered(&mut s, T, "a1", "t1", "ok");
    assert!(assignments::park_quota_blocked(&mut s, T, "e1", "a1", NEXT, "out", "k1", "{}").moved);
    assert_eq!(assignments::quota_blocked_all(&s).len(), 1);
    assert_eq!(row(&s).quota_retries, 0);
    assignments::extend_quota_blocked(&mut s, NEXT, "a1", "2026-09-12T11:00:00.000Z");
    assert_eq!((row(&s).quota_retries, row(&s).resume_at.as_deref()), (1, Some("2026-09-12T11:00:00.000Z")));
    assert_eq!(s.inbox.len(), 1, "putting it off again tells nobody");
}

#[test]
fn small_facts_are_written_down() {
    let mut s = one();
    assignments::set_mission_link(&mut s, T, "a1", "m1", "worker");
    assignments::set_turn_error(&mut s, "a1", "pane died");
    let a = row(&s);
    assert_eq!((a.mission_id.as_deref(), a.mission_role.as_deref(), a.turn_error.as_deref()), (Some("m1"), Some("worker"), Some("pane died")));
    store::set_quota_reset(&mut s, T, Some(NEXT));
    store::set_remote(&mut s, T, "off", None);
    let r = store::get_or_init(&mut s, T);
    assert_eq!((r.quota_reset_at.as_deref(), r.remote_status.as_str(), r.remote_source.as_deref()), (Some(NEXT), "off", Some("argv")));
}

#[test]
fn giving_up_on_an_event_does_not_close_it() {
    let mut s = one();
    let id = inbox::push_inbox(&mut s, T, "e1", "k1", "approval_requested", None, None, None, "{}").unwrap();
    assert!(!inbox::give_up_inbox(&mut s, T, &id, "no answer"), "it was never delivered");
    inbox::mark_delivered_inbox(&mut s, T, &[id.clone()], "t1", "ok");
    assert!(inbox::give_up_inbox(&mut s, T, &id, "no answer"));
    assert_eq!(s.inbox[0].state, "gave_up");
    assert_eq!(inbox::open_inbox_count(&s), 1);
    assert!(inbox::ack_inbox(&mut s, T, &id));
    assert_eq!(inbox::open_inbox_count(&s), 0);
}

#[test]
fn evidence_is_only_rewritten_while_it_says_what_was_written() {
    let mut s = one();
    assignments::mark_delivered(&mut s, T, "a1", "t1", "ok");
    s.assignments[0].status = "awaiting_review".into();
    reviews::review(&mut s, T, "v1", "a1", "accept", "AGM", "cli", Some("fine"), Some("seen"), None).unwrap();
    let id = s.reviews[0].id.clone();
    assert!(!reviews::amend_review_evidence(&mut s, &id, Some("other"), Some("new")));
    assert!(reviews::amend_review_evidence(&mut s, &id, Some("seen"), Some("new")));
    assert_eq!(reviews::reviews(&s, "a1")[0].evidence.as_deref(), Some("new"));
}

#[test]
fn a_notice_closes_itself_and_asks_nobody() {
    for payload in ["{\"x\":1}", "null"] {
        let mut s = Store::new();
        store::get_or_init(&mut s, T);
        assignments::insert_assignment(&mut s, T, "a1", None, "b1", "c1", "fyi", &[], None, false).unwrap();
        assignments::mark_delivered(&mut s, T, "a1", "t1", "ok");
        let r = assignments::settle_and_notify(&mut s, T, "e1", "a1", "completed", true, None, None, "k1", "assignment_completed", payload).unwrap();
        assert!(r.moved && r.event_new);
        assert_eq!(row(&s).status, "completed");
        assert_eq!(s.inbox[0].kind, "assignment_noticed");
        let v: serde_json::Value = serde_json::from_str(&s.inbox[0].payload_json).unwrap();
        assert_eq!((v["needs_review"].as_bool(), v["kind"].as_str()), (Some(false), Some("notice")));
    }
}

#[test]
fn the_rest_of_a_notice_stays_as_it_was_written() {
    let deep = format!("{}{}", "[".repeat(300), "]".repeat(300));
    let payload = format!("{{\"z\":2.638344616030823e-256,\"kind\":\"x\",\"deep\":{deep}}}");
    let mut s = Store::new();
    store::get_or_init(&mut s, T);
    assignments::insert_assignment(&mut s, T, "a1", None, "b1", "c1", "fyi", &[], None, false).unwrap();
    assignments::mark_delivered(&mut s, T, "a1", "t1", "ok");
    assignments::settle_and_notify(&mut s, T, "e1", "a1", "completed", true, None, None, "k1", "assignment_completed", &payload).unwrap();
    let kept = format!("{{\"deep\":{deep},\"kind\":\"notice\",\"needs_review\":false,\"z\":2.638344616030823e-256}}");
    assert_eq!(s.inbox[0].payload_json, kept);
}
