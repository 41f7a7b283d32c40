//! The tables and the operations on them.
use agm_supervisor::approvals;
use agm_supervisor::approvals::{ApprovalError, ApprovalOutcome};
use agm_supervisor::assignment_state;
use agm_supervisor::assignments;
use agm_supervisor::assignments::Settled;
use agm_supervisor::inbox;
use agm_supervisor::incidents;
use agm_supervisor::leases;
use agm_supervisor::leases::Traffic;
use agm_supervisor::migration;
use agm_supervisor::migration::Present;
use agm_supervisor::persona;
use agm_supervisor::reviews;
use agm_supervisor::reviews::{FollowupSpec, ReviewError};
use agm_supervisor::rows::{Assignment, Decision};
use agm_supervisor::store;
use agm_supervisor::store::{Store, StoreError};

const T: &str = "2026-09-12T10:00:00.000Z";

/// A store with its supervisor row, a clock that stands still and ids that count up.
struct Db {
    s: Store,
    n: u32,
}

impl Db {
    fn new() -> Db {
        let mut s = Store::new();
        store::get_or_init(&mut s, T);
        Db { s, n: 0 }
    }

    fn id(&mut self) -> String {
        self.n += 1;
        format!("id{:04}", self.n)
    }

    fn task(&mut self, crid: &str, words: &str) -> Assignment {
        self.insert("bot1", crid, words, None, true).unwrap()
    }

    fn insert(&mut self, bot: &str, crid: &str, words: &str, of: Option<&str>, expects: bool) -> Result<Assignment, StoreError> {
        let id = self.id();
        assignments::insert_assignment(&mut self.s, T, &id, None, bot, crid, words, &[], of, expects)
    }

    fn row(&self, id: &str) -> Assignment {
        assignments::assignment(&self.s, id).unwrap()
    }

    fn force(&mut self, id: &str, status: &str) {
        for a in self.s.assignments.iter_mut() {
            if a.id == id {
                a.status = status.to_string();
            }
        }
    }

    fn delivered(&mut self, id: &str, turn: &str, delivery: &str) -> bool {
        assignments::mark_delivered(&mut self.s, T, id, turn, delivery)
    }

    fn settle(&mut self, id: &str, status: &str, result: Option<&str>, error: Option<&str>, key: &str, kind: &str, payload: &str) -> Result<Settled, StoreError> {
        let ev = self.id();
        assignments::settle_and_notify(&mut self.s, T, &ev, id, status, true, result, error, key, kind, payload)
    }

    fn done(&mut self, id: &str, result: &str, key: &str) -> Settled {
        self.settle(id, "completed", Some(result), None, key, "assignment_completed", "{}").unwrap()
    }

    fn park(&mut self, id: &str, key: &str) -> Settled {
        let ev = self.id();
        assignments::park_quota_blocked(&mut self.s, T, &ev, id, "2026-09-13T01:00:00Z", "撞到上限", key, "{}")
    }

    fn resume(&mut self, id: &str, key: &str) -> Settled {
        let ev = self.id();
        assignments::resume_quota_blocked(&mut self.s, T, &ev, id, key, "{}")
    }

    fn review(&mut self, id: &str, decision: &str, reason: Option<&str>, evidence: Option<&str>, next: Option<&str>) -> Option<Assignment> {
        let rid = self.id();
        reviews::review(&mut self.s, T, &rid, id, decision, "AGM", "cli", reason, evidence, next).unwrap()
    }

    fn decide(&mut self, id: &str, expect: &str, decision: &str, source: &str, reason: Option<&str>, next: Option<FollowupSpec>) -> Result<Option<reviews::Decided>, ReviewError> {
        let rid = self.id();
        let fid = self.id();
        reviews::review_with_followup(&mut self.s, T, &rid, &fid, id, expect, decision, "AGM", source, reason, None, next)
    }

    fn push(&mut self, key: &str, kind: &str, assignment: Option<&str>) -> Option<String> {
        let id = self.id();
        inbox::push_inbox(&mut self.s, T, &id, key, kind, assignment, None, None, "{}")
    }

    fn kinds(&self) -> Vec<String> {
        inbox::pending_inbox(&self.s).into_iter().map(|e| e.kind).collect()
    }

    fn ask(&mut self, requester: &str, purpose: &str, scope: &str, commit: Option<&str>, rid: Option<&str>) -> Result<ApprovalOutcome, ApprovalError> {
        let id = self.id();
        approvals::create_approval(&mut self.s, T, &id, requester, purpose, scope, commit, None, rid)
    }

    fn lease(&mut self, now: &str, resource: &str, owner: &str, approval: Option<&str>, commit: Option<&str>, until: &str) -> Option<agm_supervisor::rows::Lease> {
        let token = self.id();
        let decision = self.id();
        let quiet = Traffic { turns: vec![], runs: vec![] };
        leases::acquire_lease(&mut self.s, now, &token, &decision, resource, owner, approval, commit, until, false, &quiet, None, "{}")
    }
}

fn spec<'a>(target: &'a str, crid: &'a str, text: &'a str, owns: &'a [String]) -> FollowupSpec<'a> {
    FollowupSpec { target_bot_id: target, client_request_id: crid, text, ownership: owns, request_id: None }
}

fn parsed(t: &str) -> serde_json::Value {
    serde_json::from_str(t).unwrap()
}

#[test]
fn the_row_is_created_once_and_read_back_the_same() {
    let mut s = Store::new();
    let a = store::get_or_init(&mut s, T);
    let b = store::get_or_init(&mut s, "2026-09-12T11:00:00.000Z");
    assert_eq!(a.id, store::SUPERVISOR_ID);
    assert_eq!(a.created_at, b.created_at, "a second call must not replace the row");
    assert_eq!((a.identity.as_str(), a.effort.as_str(), a.active_model.as_str()), ("cc0", "low", "fable"));
}

#[test]
fn the_last_wake_up_is_remembered_across_reads() {
    let mut d = Db::new();
    assert!(store::get_or_init(&mut d.s, T).last_notify_at.is_none(), "never woken yet");
    store::set_last_notify(&mut d.s, T, "2026-09-12T10:00:00Z");
    assert_eq!(store::get_or_init(&mut d.s, T).last_notify_at.as_deref(), Some("2026-09-12T10:00:00Z"));
}

#[test]
fn a_decided_assignment_is_not_revived_by_a_late_delivery() {
    let mut d = Db::new();
    for (decided, label) in [("cancelled", "取消"), ("completed", "驗收通過"), ("failed", "判定失敗"), ("superseded", "被接續取代")] {
        let a = d.task(&format!("req-{decided}"), "x");
        d.force(&a.id, decided);
        let moved = d.delivered(&a.id, "t-late", "ok");
        assert!(!moved, "{label}：遲到的送達不該寫進去");
        let after = d.row(&a.id);
        assert_eq!(after.status, decided, "{label}：狀態要留在裁示的結果");
        assert!(after.turn_id.is_none(), "{label}：也不該把 turn 綁上去");
    }
}

#[test]
fn an_assignment_still_in_flight_records_its_delivery() {
    let mut d = Db::new();
    for from in assignment_state::IN_FLIGHT {
        let a = d.task(&format!("req-{from}"), "x");
        d.force(&a.id, from);
        assert!(d.delivered(&a.id, "t-1", "ok"), "{from} 要記得下去");
        assert_eq!(d.row(&a.id).status, "delivered");
    }
}

#[test]
fn a_second_decision_on_a_settled_assignment_is_refused() {
    let mut d = Db::new();
    let a = d.task("req-twice", "x");
    let first = d.review(&a.id, "accept", Some("好了"), None, None);
    assert!(first.is_some(), "第一次裁示成立");
    let again = d.review(&a.id, "fail", Some("反悔"), None, None);
    assert!(again.is_none(), "已經結案，第二次裁示要被擋下來");
    let after = d.row(&a.id);
    assert_eq!(after.status, "completed", "留在第一次的結果");
    assert_eq!(after.review_reason.as_deref(), Some("好了"), "理由也不該被蓋掉");
}

#[test]
fn one_client_request_id_is_one_assignment() {
    let mut d = Db::new();
    let a = d.task("req-1", "do the thing");
    assert_eq!(a.status, "queued");
    assert_eq!(d.insert("bot1", "req-1", "do the thing", None, true).err(), Some(StoreError::RequestIdTaken));
    assert_eq!(assignments::assignment_by_crid(&d.s, "req-1").unwrap().id, a.id);
}

#[test]
fn a_notice_closes_itself_when_the_turn_ends() {
    let mut d = Db::new();
    let a = d.insert("bot1", "notice-1", "收到，進 idle", None, false).unwrap();
    assert!(a.is_notice());
    d.delivered(&a.id, "t1", "ok");
    let s = d.done(&a.id, "好", "k1");
    assert!(s.moved);
    let after = d.row(&a.id);
    assert_eq!(after.status, "completed", "通知不需要驗收");
    assert!(after.completed_at.is_some());
    assert_eq!(assignments::awaiting_review_count(&d.s), 0);
    let ev = inbox::pending_inbox(&d.s);
    assert_eq!(ev.len(), 1);
    assert_eq!(ev[0].kind, "assignment_noticed");
    assert_eq!(parsed(&ev[0].payload_json)["needs_review"], false);
}

#[test]
fn a_notice_that_failed_still_waits_for_agm() {
    let mut d = Db::new();
    let a = d.insert("bot1", "notice-2", "看完即可", None, false).unwrap();
    d.settle(&a.id, "dispatch_failed", None, Some("bot has no active run"), "k2", "assignment_failed", "{}").unwrap();
    assert_eq!(d.row(&a.id).status, "awaiting_review");
    assert_eq!(assignments::awaiting_review_count(&d.s), 1);
}

#[test]
fn a_task_still_waits_for_acceptance() {
    let mut d = Db::new();
    let a = d.task("task-1", "做這個");
    d.done(&a.id, "做完了", "k3");
    assert_eq!(d.row(&a.id).status, "awaiting_review");
}

#[test]
fn a_quota_block_parks_and_then_resumes_with_a_fresh_crid() {
    let mut d = Db::new();
    let a = d.task("job-1", "跑那個批次");
    d.delivered(&a.id, "t1", "ok");
    let parked = d.park(&a.id, "qb:1");
    assert!(parked.moved && parked.event_new);
    let blocked = d.row(&a.id);
    assert_eq!(blocked.status, "quota_blocked");
    assert_eq!(blocked.resume_at.as_deref(), Some("2026-09-13T01:00:00Z"));
    assert!(blocked.is_open(), "工作還沒做完，只是在等額度");
    assert!(assignments::assignments_idle_since(&d.s, "2999-01-01T00:00:00Z").iter().all(|x| x.id != a.id));

    let resumed = d.resume(&a.id, "qr:1");
    assert!(resumed.moved);
    let back = d.row(&a.id);
    assert_eq!(back.status, "queued");
    assert_eq!(back.quota_retries, 1);
    assert!(back.turn_id.is_none(), "下一次是新的 turn");
    assert_eq!(back.dispatch_crid(), "job-1#r1");
    assert_eq!(a.dispatch_crid(), "job-1");
    let kinds = d.kinds();
    assert!(kinds.contains(&"assignment_quota_blocked".to_string()));
    assert!(kinds.contains(&"assignment_quota_resumed".to_string()));
}

#[test]
fn a_decided_assignment_gets_no_stale_quota_resume_notification() {
    let mut d = Db::new();
    let a = d.task("req-race3", "做 A");
    d.delivered(&a.id, "turn-race3", "ok");
    d.park(&a.id, "qb:race3");
    d.decide(&a.id, "quota_blocked", "cancel", "cli", Some("改主意"), None).unwrap().expect("cancel 先落地");

    let resumed = d.resume(&a.id, "qr:race3");
    assert!(!resumed.moved, "guard 要擋下：這一列已經不是 quota_blocked");
    assert!(!resumed.event_new, "沒有真的轉移，不該生出一則新事件");
    assert_eq!(d.row(&a.id).status, "cancelled", "guard 擋下的不會被蓋回 queued");
    assert!(!d.kinds().contains(&"assignment_quota_resumed".to_string()));
}

#[test]
fn a_decided_assignment_gets_no_stale_quota_blocked_notification() {
    let mut d = Db::new();
    let a = d.task("req-park-race", "做 A");
    d.delivered(&a.id, "turn-park-race", "ok");
    d.decide(&a.id, "delivered", "cancel", "cli", Some("改主意"), None).unwrap().expect("cancel 先落地");

    let parked = d.park(&a.id, "qb:park-race");
    assert!(!parked.moved, "guard 要擋下：這一列已經不是在途");
    assert!(!parked.event_new, "沒有真的轉移，不該生出一則新事件");
    assert_eq!(d.row(&a.id).status, "cancelled");
    assert!(!d.kinds().contains(&"assignment_quota_blocked".to_string()));
}

#[test]
fn parking_twice_does_not_wake_agm_twice() {
    let mut d = Db::new();
    let a = d.task("job-2", "x");
    let first = d.park(&a.id, "qb:2");
    let again = d.park(&a.id, "qb:2");
    assert!(first.event_new);
    assert!(!again.event_new, "重放不再通知一次");
    assert!(!again.moved, "已經在 quota_blocked 了");
}

#[test]
fn the_same_event_key_only_lands_once() {
    let mut d = Db::new();
    let first = d.push("turn:t1:completed", "assignment_completed", None);
    let again = d.push("turn:t1:completed", "assignment_completed", None);
    assert!(first.is_some());
    assert!(again.is_none(), "a duplicate event is dropped, not queued again");
    assert_eq!(inbox::pending_inbox(&d.s).len(), 1);
}

#[test]
fn delivery_does_not_close_an_event_but_an_ack_does() {
    let mut d = Db::new();
    let id = d.push("k1", "assignment_completed", None).unwrap();
    inbox::mark_delivered_inbox(&mut d.s, T, &[id.clone()], "turn-9", "ok");
    assert!(inbox::pending_inbox(&d.s).is_empty(), "delivered events are not offered again");
    assert_eq!(assignments::pending_count(&d.s), 1, "but they are still outstanding");
    assert!(inbox::ack_inbox(&mut d.s, T, &id));
    assert_eq!(assignments::pending_count(&d.s), 0);
    assert!(!inbox::ack_inbox(&mut d.s, T, "nope"));
}

#[test]
fn pending_counts_open_work_as_well_as_unhandled_news() {
    let mut d = Db::new();
    let a = d.task("req-1", "x");
    assert_eq!(assignments::pending_count(&d.s), 1);
    d.delivered(&a.id, "t1", "ok");
    assert_eq!(d.row(&a.id).status, "delivered");
    assert_eq!(assignments::pending_count(&d.s), 1, "delivered work is still open work");
    d.done(&a.id, "done", "k-done");
    assert_eq!(assignments::pending_count(&d.s), 2, "a finished turn is still open work, plus the notification nobody has read");
    d.review(&a.id, "accept", Some("編譯通過"), Some("turn t1"), None);
    let done = d.row(&a.id);
    assert_eq!(done.status, "completed");
    assert_eq!(done.result.as_deref(), Some("done"));
    assert_eq!(assignments::open_assignment_count(&d.s), 0, "accepted work leaves the open list");
}

#[test]
fn an_intent_write_that_matches_no_row_is_an_error_not_a_silent_success() {
    let mut d = Db::new();
    store::set_desired_running(&mut d.s, T, true).unwrap();
    d.s.supervisor = None;
    assert_eq!(store::set_desired_running(&mut d.s, T, false), Err(StoreError::NoSupervisor));
}

#[test]
fn the_watchdog_reports_giving_up_once_and_a_recovery_re_arms_it() {
    let mut d = Db::new();
    store::set_desired_running(&mut d.s, T, true).unwrap();
    store::set_watchdog(&mut d.s, T, 5, None);

    assert!(store::mark_watchdog_gave_up(&mut d.s, T, "CLI 起來就死"), "the first tick reports");
    for _ in 0..50 {
        assert!(!store::mark_watchdog_gave_up(&mut d.s, T, "CLI 起來就死"), "later ticks stay silent");
    }
    let s = store::get_or_init(&mut d.s, T);
    assert!(s.watchdog_gave_up_at.is_some());
    assert_eq!(s.watchdog_last_error.as_deref(), Some("CLI 起來就死"));

    store::set_watchdog(&mut d.s, T, 0, None);
    let s = store::get_or_init(&mut d.s, T);
    assert!(s.watchdog_gave_up_at.is_none(), "a recovery clears it");
    assert!(s.watchdog_last_error.is_none());
    assert!(store::mark_watchdog_gave_up(&mut d.s, T, "第二次"), "so a later outage is reported again");

    store::set_desired_running(&mut d.s, T, true).unwrap();
    let s = store::get_or_init(&mut d.s, T);
    assert!(s.watchdog_gave_up_at.is_none());
    assert_eq!((s.watchdog_attempts, s.watchdog_next_at), (0, None));

    store::mark_watchdog_gave_up(&mut d.s, T, "第三次");
    store::set_watchdog(&mut d.s, T, 5, Some("2099-01-01T00:00:00Z"));
    assert!(store::get_or_init(&mut d.s, T).watchdog_gave_up_at.is_some());
}

#[test]
fn work_that_keeps_retrying_is_visible_even_though_it_never_looks_idle() {
    let mut d = Db::new();
    let a = d.insert("stopped-bot", "req-r", "做事", None, true).unwrap();
    d.s.assignments[0].created_at = "2020-01-01T00:00:00.000Z".to_string();
    for _ in 0..20 {
        assignments::defer(&mut d.s, T, &a.id, "2099-01-01T00:00:00Z", "bot has no active run");
    }
    let cutoff = "2026-09-12T09:59:00.000Z";
    assert!(assignments::assignments_idle_since(&d.s, cutoff).is_empty(), "the idle probe is blind to it");
    let seen = assignments::assignments_undelivered_since(&d.s, cutoff);
    assert_eq!(seen.len(), 1, "but never-delivered work is clocked from created_at");
    assert_eq!(seen[0].attempts, 20);
    assert_eq!(seen[0].error.as_deref(), Some("bot has no active run"));
    assert_eq!(parsed(&seen[0].to_json())["next_attempt_at"], "2099-01-01T00:00:00Z", "and when it will try again");

    d.delivered(&a.id, "t1", "ok");
    assert!(assignments::assignments_undelivered_since(&d.s, cutoff).is_empty());
}

#[test]
fn cancelling_unknown_delivery_keeps_the_evidence_that_it_may_be_running() {
    let mut d = Db::new();
    let a = d.task("req-u", "x");
    d.delivered(&a.id, "t7", "unknown");
    assert_eq!(d.row(&a.id).status, "unknown");
    d.review(&a.id, "cancel", Some("使用者改主意"), Some("送達未知，沒有中止回合"), None);
    let a = d.row(&a.id);
    assert_eq!(a.status, "cancelled");
    assert!(!a.is_open());
    assert_eq!(a.delivery.as_deref(), Some("unknown"), "delivery is not rewritten by the decision");
    assert_eq!(a.turn_id.as_deref(), Some("t7"), "and the turn is still named, so it can be checked");
    let log = reviews::reviews(&d.s, &a.id);
    assert!(log[0].evidence.as_deref().unwrap().contains("沒有中止回合"));
}

#[test]
fn a_finished_turn_waits_for_acceptance_instead_of_closing_itself() {
    let mut d = Db::new();
    let a = d.task("req-a", "改好那個 bug");
    d.delivered(&a.id, "t1", "ok");
    let s = d
        .settle(
            &a.id,
            "completed",
            Some("還在等編譯，等一下回報"),
            None,
            "assignment_completed:a:t1",
            "assignment_completed",
            "{\"result\": \"還在等編譯\"}",
        )
        .unwrap();
    assert_eq!(s, Settled { moved: true, event_new: true });
    let a = d.row(&a.id);
    assert_eq!(a.status, "awaiting_review");
    assert!(a.is_open(), "still owed to the manager");
    assert!(!a.is_executing(), "but the daemon has nothing left to do for it");
    assert_eq!(a.turn_status.as_deref(), Some("completed"), "the raw fact is kept");
    assert_eq!(assignments::awaiting_review_count(&d.s), 1);
    assert!(assignments::open_assignments(&d.s).is_empty(), "not on the controller's work list");
    assert_eq!(assignments::unsettled_assignments(&d.s).len(), 1, "but on the manager's");

    d.review(&a.id, "block", Some("等編譯"), None, None);
    let a = d.row(&a.id);
    assert_eq!(a.status, "blocked");
    assert!(a.is_open());
    assert_eq!(assignments::open_assignment_count(&d.s), 1);
}

#[test]
fn every_decision_is_recorded_with_its_actor_and_evidence() {
    let mut d = Db::new();
    let a = d.task("req-b", "x");
    d.done(&a.id, "ok", "k");
    d.review(&a.id, "accept", Some("測試通過"), Some("commit abc123"), None);
    let log = reviews::reviews(&d.s, &a.id);
    assert_eq!(log.len(), 1);
    assert_eq!(log[0].decision, "accept");
    assert_eq!(log[0].from_status, "awaiting_review");
    assert_eq!(log[0].to_status, "completed");
    assert_eq!(log[0].actor, "AGM");
    assert_eq!(log[0].evidence.as_deref(), Some("commit abc123"));
}

#[test]
fn a_follow_up_is_a_new_assignment_linked_to_the_old_one() {
    let mut d = Db::new();
    let first = d.task("req-1", "做 A");
    d.done(&first.id, "A 做了一半", "k1");
    let next = d.insert("bot1", "req-1-follow", "把 A 做完", Some(&first.id), true).unwrap();
    reviews::link_followup(&mut d.s, T, &first.id, &next.id);
    d.review(&first.id, "followup", Some("還差一半"), None, Some(&next.id));
    let first = d.row(&first.id);
    assert_eq!(first.status, "superseded");
    assert_eq!(first.followup_assignment_id.as_deref(), Some(next.id.as_str()));
    assert!(!first.is_open(), "the original is closed…");
    let next = d.row(&next.id);
    assert_eq!(next.follow_up_of.as_deref(), Some(first.id.as_str()));
    assert!(next.is_open(), "…because the follow-up carries the work");
    assert_eq!(first.text, "做 A", "the delivered words are never rewritten");
}

#[test]
fn two_concurrent_followups_on_one_parent_create_exactly_one_continuation() {
    let mut d = Db::new();
    let parent = d.task("req-p", "做 A");
    d.done(&parent.id, "做一半", "k");

    let first = d
        .decide(&parent.id, "awaiting_review", "followup", "cli", Some("還差一半"), Some(spec("bot1", "follow-A", "把 A 做完", &[])))
        .unwrap()
        .expect("the first decision wins");
    assert_eq!(first.updated.status, "superseded");
    let first_child = first.followup.expect("a continuation was created");

    let second = d
        .decide(&parent.id, "awaiting_review", "followup", "web", Some("我也覺得要續作"), Some(spec("bot1", "follow-B", "另一份續作", &[])))
        .unwrap();
    assert!(second.is_none(), "the loser writes nothing at all");

    let all = assignments::list_assignments(&d.s, 50);
    assert_eq!(all.len(), 2, "one parent, one continuation — not two");
    assert!(all.iter().all(|a| a.client_request_id != "follow-B"), "the loser's row was never inserted");
    assert_eq!(reviews::reviews(&d.s, &parent.id).len(), 1, "and no second audit entry");
    assert_eq!(d.row(&parent.id).followup_assignment_id.as_deref(), Some(first_child.id.as_str()));

    let retry = d
        .decide(&parent.id, "superseded", "followup", "cli", Some("重送"), Some(spec("bot1", "follow-A", "把 A 做完", &[])))
        .unwrap()
        .expect("the parent is still where this caller thinks it is");
    assert_eq!(retry.followup.unwrap().id, first_child.id);
    assert_eq!(assignments::list_assignments(&d.s, 50).len(), 2, "still two rows");
}

#[test]
fn a_failed_followup_rolls_back_and_leaves_no_orphan_queued_row() {
    let mut d = Db::new();
    let parent = d.task("req-p", "做 A");
    d.done(&parent.id, "做一半", "k");
    let other = d.insert("bot2", "taken-crid", "別人的工作", None, true).unwrap();

    let err = d.decide(&parent.id, "awaiting_review", "followup", "cli", Some("續作"), Some(spec("bot1", "taken-crid", "把 A 做完", &[])));
    match err {
        Err(ReviewError::FollowupIdTaken(t)) => {
            assert_eq!(t.assignment_id, other.id);
            assert!(t.message().contains("taken-crid"), "{}", t.message());
        }
        x => panic!("adopting someone else's request id is refused with a named error: {x:?}"),
    }

    let parent_now = d.row(&parent.id);
    assert_eq!(parent_now.status, "awaiting_review", "the parent was not superseded");
    assert!(parent_now.review_decision.is_none(), "and no decision was recorded");
    assert!(parent_now.followup_assignment_id.is_none());
    assert!(reviews::reviews(&d.s, &parent.id).is_empty(), "no audit row either");
    let all = assignments::list_assignments(&d.s, 50);
    assert_eq!(all.len(), 2, "no orphan continuation was left behind");
    assert!(all.iter().all(|a| a.follow_up_of.is_none()));
    assert_eq!(d.row(&other.id).text, "別人的工作", "and the other row is untouched");
}

#[test]
fn a_followup_of_a_notice_is_still_a_notice() {
    let mut d = Db::new();
    let notice = d.insert("bot1", "hello-1", "收到，進 idle", None, false).unwrap();
    let task = d.task("task-1", "做 A");
    for (parent, crid) in [(&notice, "hello-1-r"), (&task, "task-1-r")] {
        let done = d.decide(&parent.id, "queued", "followup", "cli", None, Some(spec("bot1", crid, "再送一次", &[]))).unwrap().unwrap();
        let child = done.followup.unwrap();
        assert_eq!(child.expects_review, parent.expects_review, "{crid}");
    }
}

#[test]
fn settling_twice_moves_nothing_and_queues_one_event() {
    let mut d = Db::new();
    let a = d.task("req-c", "x");
    d.delivered(&a.id, "t9", "ok");
    let key = "assignment_completed:a:t9";
    let first = d.done(&a.id, "r", key);
    let again = d.done(&a.id, "r", key);
    assert_eq!(first, Settled { moved: true, event_new: true });
    assert_eq!(again, Settled { moved: false, event_new: false }, "a duplicate completion is not a second event");
    assert_eq!(inbox::pending_inbox(&d.s).len(), 1);
}

#[test]
fn a_failed_notification_rolls_the_whole_settle_back() {
    let mut d = Db::new();
    let a = d.insert("bot1", "req-tx", "x", None, false).unwrap();
    d.delivered(&a.id, "t1", "ok");
    let err = d.settle(&a.id, "completed", Some("done"), None, "k", "assignment_completed", "[]");
    assert_eq!(err, Err(StoreError::PayloadNotAnObject), "the notification cannot be written");
    let a = d.row(&a.id);
    assert_eq!(a.status, "delivered", "so the assignment is still open and will be reconciled again");
    assert!(a.turn_status.is_none(), "and nothing of the half-written outcome survived");
    assert!(inbox::inbox(&d.s, 10).is_empty());
}

#[test]
fn a_settled_assignment_with_no_event_is_found_by_the_sweep() {
    let mut d = Db::new();
    let a = d.task("req-d", "x");
    d.force(&a.id, "awaiting_review");
    d.s.assignments[0].turn_status = Some("completed".to_string());
    assert_eq!(assignments::settled_without_event(&d.s, 10).len(), 1);
    d.push("k", "assignment_completed", Some(&a.id));
    assert!(assignments::settled_without_event(&d.s, 10).is_empty(), "once queued it is not swept again");
}

#[test]
fn a_cancelled_assignment_is_not_resurrected_by_a_late_settle() {
    let mut d = Db::new();
    let a = d.task("req-race", "做 A");
    d.delivered(&a.id, "turn-race", "ok");
    assert_eq!(d.row(&a.id).status, "delivered");

    let cancelled = d.decide(&a.id, "delivered", "cancel", "cli", Some("改主意"), None).unwrap().expect("cancel 先落地");
    assert_eq!(cancelled.updated.status, "cancelled");

    let settled = d.done(&a.id, "完成", "k-race");
    assert!(!settled.moved, "guard 要擋下：這一列已經不是 queued/delivered/unknown");
    let row = d.row(&a.id);
    assert_eq!(row.status, "cancelled", "已經取消的交辦不會被遲到的收尾救回 awaiting_review");
    assert_eq!(row.review_decision.as_deref(), Some("cancel"), "取消當時寫下的裁示紀錄原封不動，沒被收尾蓋掉");
}

#[test]
fn a_cancelled_assignment_gets_no_stale_completion_notification() {
    let mut d = Db::new();
    let a = d.task("req-race2", "做 A");
    d.delivered(&a.id, "turn-race2", "ok");
    d.decide(&a.id, "delivered", "cancel", "cli", Some("改主意"), None).unwrap().expect("cancel 先落地");
    let settled = d.settle(&a.id, "completed", Some("完成"), None, "k-race2", "assignment_completed", "{\"needs_review\": true}").unwrap();
    assert!(!settled.moved, "guard 要擋下：這一列已經不是 queued/delivered/unknown");
    assert!(!settled.event_new, "沒有真的轉移，不該生出一則新事件");
    let events = d.s.inbox.iter().filter(|e| e.assignment_id.as_deref() == Some(a.id.as_str())).count();
    assert_eq!(events, 0, "已經取消的交辦不該讓 AGM 收到「這件做完了、請驗收」的通知");
}

#[test]
fn unknown_delivery_is_not_folded_into_delivered() {
    let mut d = Db::new();
    let a = d.task("req-2", "x");
    d.delivered(&a.id, "t2", "unknown");
    let a = d.row(&a.id);
    assert_eq!(a.status, "unknown");
    assert!(a.is_open());
    assert_eq!(assignments::assignment_by_turn(&d.s, "t2").unwrap().id, a.id);
}

#[test]
fn a_replayed_source_turn_is_the_same_request() {
    let mut d = Db::new();
    let a = store::upsert_request(&mut d.s, T, "r1", "manager_turn", Some("turn-1"), "幫我處理登入").unwrap();
    let b = store::upsert_request(&mut d.s, T, "r2", "manager_turn", Some("turn-1"), "幫我處理登入").unwrap();
    assert_eq!(a, b);
    let c = store::upsert_request(&mut d.s, T, "r3", "assignment_text_fallback", None, "同樣的字").unwrap();
    let e = store::upsert_request(&mut d.s, T, "r4", "assignment_text_fallback", None, "同樣的字").unwrap();
    assert_ne!(c, e);
    assert_eq!(store::requests(&d.s, 10).len(), 3);
    assert_eq!(store::upsert_request(&mut d.s, T, "r4", "api", Some("   "), "x"), Err(StoreError::IdTaken));
}

#[test]
fn switching_bumps_the_generation_and_spends_the_budget() {
    let mut d = Db::new();
    let gen = store::set_active_model(&mut d.s, T, "opus", Some("2099-01-01T00:00:00Z")).unwrap();
    assert_eq!(gen, 1);
    let s = store::get_or_init(&mut d.s, T);
    assert_eq!(s.active_model, "opus");
    assert_eq!(s.fallback_tries, 1);
    store::clear_fallback_budget(&mut d.s, T);
    let s = store::get_or_init(&mut d.s, T);
    assert_eq!(s.fallback_tries, 0);
    assert!(s.cooldown_until.is_none());
    assert_eq!(s.generation, 1, "clearing the budget is not a switch");
}

#[test]
fn the_open_inbox_is_oldest_first_and_drains_with_acks() {
    let mut d = Db::new();
    for i in 0..5 {
        let id = d.push(&format!("k{i}"), "health_changed", None).unwrap();
        for e in d.s.inbox.iter_mut() {
            if e.id == id {
                e.created_at = format!("2026-09-11T00:00:0{i}Z");
            }
        }
    }
    let open = inbox::open_inbox(&d.s, 10);
    assert_eq!(open.iter().map(|e| e.event_key.as_str()).collect::<Vec<_>>(), ["k0", "k1", "k2", "k3", "k4"]);
    assert_eq!(inbox::open_inbox(&d.s, 2).len(), 2, "--limit applies");
    assert!(inbox::ack_inbox(&mut d.s, T, &open[0].id));
    inbox::mark_delivered_inbox(&mut d.s, T, &[open[1].id.clone()], "t1", "ok");
    let open = inbox::open_inbox(&d.s, 10);
    assert_eq!(
        open.iter().map(|e| e.event_key.as_str()).collect::<Vec<_>>(),
        ["k1", "k2", "k3", "k4"],
        "delivered is still open; handled is gone"
    );
    assert_eq!(inbox::open_inbox_count(&d.s), 4);
    assert_eq!(assignments::open_assignment_count(&d.s), 0);
    assert_eq!(assignments::pending_count(&d.s), 4);
}

fn column(name: &str) -> Vec<migration::Column> {
    migration::columns_after_tables().into_iter().filter(|c| c.name == name).collect()
}

#[test]
fn migration_backfills_desired_running_from_a_previous_start() {
    let added = column("desired_running");
    assert_eq!(added.len(), 1);
    let mut seen = Vec::new();
    for (gen, bot) in [(2, Some("b1")), (0, Some("b2")), (3, None)] {
        let mut d = Db::new();
        if let Some(r) = d.s.supervisor.as_mut() {
            r.generation = gen;
            r.bot_id = bot.map(String::from);
        }
        migration::migrate(&mut d.s, &added);
        migration::migrate(&mut d.s, &vec![]);
        seen.push(store::get_or_init(&mut d.s, T).desired_running);
    }
    assert_eq!(seen, [1, 0, 0]);

    let mut d = Db::new();
    d.s.supervisor.as_mut().unwrap().generation = 2;
    d.s.supervisor.as_mut().unwrap().bot_id = Some("b1".to_string());
    migration::migrate(&mut d.s, &added);
    assert!(store::get_or_init(&mut d.s, T).wants_running());
    store::set_desired_running(&mut d.s, T, false).unwrap();
    assert!(!store::get_or_init(&mut d.s, T).wants_running());
    store::set_watchdog(&mut d.s, T, 3, Some("2026-09-11T00:00:00Z"));
    store::set_desired_running(&mut d.s, T, true).unwrap();
    let s = store::get_or_init(&mut d.s, T);
    assert_eq!((s.watchdog_attempts, s.watchdog_next_at.as_deref()), (0, None), "a fresh start clears the streak");
    store::set_status_detail(&mut d.s, T, Some("x"));
    let s = store::get_or_init(&mut d.s, T);
    assert_eq!((s.status.as_str(), s.status_detail.as_deref()), ("", Some("x")), "detail alone leaves status");
}

#[test]
fn an_acknowledgement_never_goes_backwards() {
    let mut d = Db::new();
    let id = d.push("k1", "assignment_completed", None).unwrap();
    assert!(inbox::ack_inbox(&mut d.s, T, &id));
    inbox::mark_delivered_inbox(&mut d.s, T, &[id.clone()], "turn-1", "ok");
    let e = inbox::inbox(&d.s, 10).into_iter().find(|e| e.id == id).unwrap();
    assert_eq!(e.state, "handled", "the late delivery write must not un-ack it");
    assert_eq!(inbox::open_inbox_count(&d.s), 0);
}

#[test]
fn notifications_are_retried_a_bounded_number_of_times_and_never_dropped() {
    let mut d = Db::new();
    let id = d.push("k1", "assignment_completed", None).unwrap();
    let ids = [id.clone()];

    inbox::defer_notify(&mut d.s, T, &ids, "2099-01-01T00:00:00Z", "delivery failed");
    assert!(inbox::due_inbox(&d.s, "2026-09-12T00:00:00Z", 5).is_empty(), "backoff holds it");
    assert_eq!(inbox::due_inbox(&d.s, "2099-06-01T00:00:00Z", 5).len(), 1, "and then releases it");

    inbox::mark_delivered_inbox(&mut d.s, T, &ids, "turn-7", "unknown");
    assert!(inbox::pending_inbox(&d.s).is_empty());
    assert_eq!(inbox::delivered_inbox(&d.s).len(), 1);
    assert!(inbox::requeue_inbox(&mut d.s, T, &id, "delivered but never acknowledged"));
    let e = inbox::pending_inbox(&d.s).remove(0);
    assert_eq!(e.notify_turn_id.as_deref(), Some("turn-7"));
    assert_eq!(e.notify_delivery.as_deref(), Some("unknown"), "unknown delivery stays unknown");
    assert!(!inbox::requeue_inbox(&mut d.s, T, &id, "again"), "only a delivered event can be requeued");

    for _ in 0..5 {
        inbox::defer_notify(&mut d.s, T, &ids, "2000-01-01T00:00:00Z", "nope");
    }
    assert!(inbox::due_inbox(&d.s, "2099-01-01T00:00:00Z", 5).is_empty(), "budget spent, no more sends");
    assert_eq!(inbox::exhausted_inbox(&d.s, 5).len(), 1, "and it is visible as an incident source");
    assert_eq!(inbox::open_inbox_count(&d.s), 1, "still owed, never swallowed");
}

#[test]
fn an_incident_is_one_row_per_resource_and_a_recurrence_is_a_new_one() {
    let mut d = Db::new();
    let (first, opened) = incidents::open_incident(&mut d.s, T, "i1", "host_disconnected", "mac2", "degraded", "{\"host\": \"mac2\"}").unwrap();
    assert!(opened);
    let (again, opened) = incidents::open_incident(&mut d.s, T, "i2", "host_disconnected", "mac2", "degraded", "{}").unwrap();
    assert!(!opened, "a second tick refreshes the incident, it does not open another");
    assert_eq!(again.id, first.id);
    assert_eq!(again.occurrences, 2);
    assert_eq!(incidents::open_incidents(&d.s).len(), 1);

    let resolved = incidents::resolve_incident(&mut d.s, T, "host_disconnected", "mac2").unwrap();
    assert_eq!(resolved.status, "resolved");
    assert!(resolved.resolved_at.is_some());
    assert!(incidents::open_incidents(&d.s).is_empty());
    assert!(incidents::resolve_incident(&mut d.s, T, "host_disconnected", "mac2").is_none(), "resolving twice is a no-op");

    let (third, opened) = incidents::open_incident(&mut d.s, T, "i3", "host_disconnected", "mac2", "degraded", "{}").unwrap();
    assert!(opened, "the same fault coming back is a new occurrence");
    assert_ne!(third.id, first.id);
    assert_eq!(incidents::incidents(&d.s, 10).len(), 2, "the resolved one is still on the record");
    incidents::resolve_incident(&mut d.s, T, "host_disconnected", "mac2");
    assert_eq!(incidents::open_incident(&mut d.s, T, "i1", "host_disconnected", "mac2", "degraded", "{}").err(), Some(StoreError::IdTaken));
}

#[test]
fn the_migration_marks_old_rows_legacy_instead_of_reopening_them() {
    let mut d = Db::new();
    for (id, status) in [("a1", "completed"), ("a2", "failed"), ("a3", "delivered"), ("a4", "cancelled")] {
        assignments::insert_assignment(&mut d.s, T, id, None, "bot1", &format!("crid-{id}"), "x", &[], None, true).unwrap();
        d.force(id, status);
    }
    migration::migrate(&mut d.s, &migration::columns_after_tables());
    migration::migrate(&mut d.s, &vec![]);
    let rows: Vec<(&str, &str, i64, Option<&str>)> =
        d.s.assignments.iter().map(|a| (a.id.as_str(), a.status.as_str(), a.legacy_closed, a.turn_status.as_deref())).collect();
    assert_eq!(rows[0], ("a1", "completed", 1, Some("completed")));
    assert_eq!(rows[1], ("a2", "failed", 1, None));
    assert_eq!(rows[2], ("a3", "delivered", 0, None), "work in flight is untouched");
    assert_eq!(rows[3], ("a4", "cancelled", 1, None));
    assert_eq!(assignments::open_assignment_count(&d.s), 1, "the backfill does not re-open closed work");
    assert!(assignments::settled_without_event(&d.s, 10).is_empty());
}

#[test]
fn an_assignment_remembers_the_files_it_was_handed() {
    let mut d = Db::new();
    let owns = vec!["daemon/src/supervisor".to_string(), "scripts/agm.py".to_string()];
    let a = assignments::insert_assignment(&mut d.s, T, "a1", None, "bot1", "req-o", "x", &owns, None, true).unwrap();
    assert_eq!(a.ownership(), owns);
    assert_eq!(parsed(&a.to_json())["ownership"][1], "scripts/agm.py");
    let b = d.insert("bot2", "req-p", "x", None, true).unwrap();
    assert!(b.ownership().is_empty());
}

#[test]
fn two_executors_race_for_one_window_and_only_one_gets_it() {
    let mut d = Db::new();
    let soon = "2099-01-01T00:00:00Z";
    let first = d.lease(T, "rebuild", "bot-a", Some("ap1"), Some("abc"), soon);
    let second = d.lease(T, "rebuild", "bot-b", Some("ap2"), Some("abc"), soon);
    let first = first.expect("first acquire wins");
    assert!(second.is_none(), "the second executor is refused while the window is held");
    assert_eq!(first.owner.as_deref(), Some("bot-a"));
    assert!(first.held_at(T));

    assert!(leases::renew_lease(&mut d.s, T, "rebuild", "bot-a", first.fence, soon));
    assert!(!leases::renew_lease(&mut d.s, T, "rebuild", "bot-b", first.fence, soon), "not your lease");
    assert!(!leases::renew_lease(&mut d.s, T, "rebuild", "bot-a", first.fence - 1, soon), "stale fence");

    assert!(leases::release_lease(&mut d.s, T, "rebuild", "bot-a", first.fence));
    assert!(!leases::release_lease(&mut d.s, T, "rebuild", "bot-a", first.fence), "releasing twice is a no-op");
    let second = d.lease(T, "rebuild", "bot-b", Some("ap2"), Some("abc"), soon).expect("free again");
    assert!(second.fence > first.fence, "the fence only goes up");
}

#[test]
fn an_expired_lease_is_taken_over_and_the_old_token_stops_working() {
    let mut d = Db::new();
    let dead = d.lease(T, "restart", "bot-a", None, None, "2000-01-01T00:00:00Z").unwrap();
    assert!(!dead.held_at(T), "already expired");
    let next = d.lease(T, "restart", "bot-b", None, None, "2099-01-01T00:00:00Z").expect("an expired lease does not block the next window");
    assert_eq!(next.owner.as_deref(), Some("bot-b"));
    assert!(!leases::renew_lease(&mut d.s, T, "restart", "bot-a", dead.fence, "2099-01-01T00:00:00Z"));
    assert!(!leases::release_lease(&mut d.s, T, "restart", "bot-a", dead.fence));
}

#[test]
fn one_request_id_is_one_approval() {
    let mut d = Db::new();
    let first = d.ask("k8bw2f", "restart", "daemon", Some("ca7b22d"), Some("restart-ca7b22d")).unwrap();
    assert!(first.created);
    assert_eq!(first.approval.client_request_id.as_deref(), Some("restart-ca7b22d"));

    let again = d.ask("k8bw2f", "restart", "daemon", Some("ca7b22d"), Some("restart-ca7b22d")).unwrap();
    assert!(!again.created, "重送不是新的一筆");
    assert_eq!(again.approval.id, first.approval.id);
    assert_eq!(approvals::approvals(&d.s, 10).len(), 1, "DB 裡還是只有一列");

    let other = d.ask("k8bw2f", "restart", "daemon", Some("ca7b22d"), Some("restart-ca7b22d-retry")).unwrap();
    assert!(other.created);
    assert_ne!(other.approval.id, first.approval.id);
    assert_eq!(approvals::approvals(&d.s, 10).len(), 2);

    let a = d.ask("k8bw2f", "restart", "daemon", Some("ca7b22d"), None).unwrap();
    let b = d.ask("k8bw2f", "restart", "daemon", Some("ca7b22d"), None).unwrap();
    assert!(a.created && b.created);
    assert_ne!(a.approval.id, b.approval.id);
    assert_eq!(approvals::approvals(&d.s, 10).len(), 4);
}

#[test]
fn the_same_request_id_with_different_content_is_refused() {
    let mut d = Db::new();
    let first = d.ask("bot", "rebuild", "daemon", Some("abc123"), Some("nightly")).unwrap().approval;
    for (purpose, scope, commit, field) in [
        ("rebuild", "daemon", Some("def456"), "target_commit"),
        ("restart", "daemon", Some("abc123"), "purpose"),
        ("rebuild", "web", Some("abc123"), "scope"),
    ] {
        match d.ask("bot", purpose, scope, commit, Some("nightly")) {
            Err(ApprovalError::Mismatch(m)) => {
                assert_eq!(m.field, field);
                assert_eq!(m.approval_id, first.id, "錯誤訊息要指回原本那筆");
            }
            x => panic!("回的是內容不符，不是別的錯: {x:?}"),
        }
    }
    let kept = approvals::approval(&d.s, &first.id).unwrap();
    assert_eq!((kept.purpose.as_str(), kept.scope.as_str(), kept.target_commit.as_deref()), ("rebuild", "daemon", Some("abc123")));
    assert_eq!(approvals::approvals(&d.s, 10).len(), 1, "被拒絕的那幾次什麼都沒寫進去");
}

#[test]
fn a_decided_request_id_comes_back_as_itself() {
    let mut d = Db::new();
    for status in ["approved", "denied", "revoked", "consumed"] {
        let rid = format!("win-{status}");
        let first = d.ask("bot", "rebuild", "daemon", Some("abc123"), Some(&rid)).unwrap().approval;
        approvals::decide_approval(&mut d.s, T, &first.id, status, "AGM", None, None);
        let again = d.ask("bot", "rebuild", "daemon", Some("abc123"), Some(&rid)).unwrap();
        assert!(!again.created, "{status}：不該因為已經決定就再開一筆");
        assert_eq!(again.approval.id, first.id);
        assert_eq!(again.approval.status, status, "{status}：回的是它現在的裁示");
    }
    assert_eq!(approvals::approvals(&d.s, 10).len(), 4);
}

#[test]
fn an_old_database_gains_the_column_without_losing_rows() {
    let old = ["id", "supervisor_id", "requester", "purpose", "scope", "target_commit", "status", "decided_by", "decided_at", "reason", "expires_at", "created_at", "updated_at"];
    let mut present: Vec<Present> =
        old.iter().map(|c| Present { table: "supervisor_approvals".to_string(), name: c.to_string() }).collect();
    let early = migration::missing(&migration::columns_before_tables(), &present);
    assert_eq!(early.len(), 1, "there is no table of leases to add to");
    assert_eq!(early[0].statement(), "ALTER TABLE supervisor_approvals ADD COLUMN client_request_id TEXT");
    present.push(Present { table: early[0].table.to_string(), name: early[0].name.to_string() });
    assert!(migration::missing(&migration::columns_before_tables(), &present).is_empty(), "可重入");

    let mut d = Db::new();
    d.ask("bot", "rebuild", "daemon", None, None).unwrap();
    migration::migrate(&mut d.s, &early);
    assert_eq!(d.s.approvals[0].client_request_id, None, "既有列留白");
    let a = d.ask("bot", "rebuild", "daemon", None, Some("r-1")).unwrap();
    assert!(a.created);
    assert!(!d.ask("bot", "rebuild", "daemon", None, Some("r-1")).unwrap().created);
    assert_eq!(approvals::approvals(&d.s, 10).len(), 2);
}

#[test]
fn every_open_state_shows_up_where_ownership_is_checked() {
    let mut d = Db::new();
    for (i, st) in assignments::OPEN_STATES.iter().enumerate() {
        let id = d.id();
        let owns = ["daemon/src".to_string()];
        assignments::insert_assignment(&mut d.s, T, &id, None, "b", &format!("crid-{i}"), "做事", &owns, None, true).unwrap();
        d.force(&id, st);
    }
    assert_eq!(assignments::open_assignment_count(&d.s), assignments::OPEN_STATES.len(), "未結案計數要涵蓋每一個未結案狀態");
    let unsettled: Vec<String> = assignments::unsettled_assignments(&d.s).into_iter().map(|a| a.status).collect();
    for st in assignments::OPEN_STATES {
        assert!(unsettled.iter().any(|s| s == st), "{st} 不在 ownership 衝突看的清單裡：{unsettled:?}");
    }
    assert!(!assignments::STALLED_STATES.contains(&"quota_blocked"));
    assert!(!assignments::STALLED_STATES.contains(&"blocked"));
}

#[test]
fn taking_over_an_expired_lease_consumes_the_approval_it_rested_on() {
    let mut d = Db::new();
    let first = d.ask("bot-a", "restart", "daemon", None, None).unwrap().approval;
    approvals::decide_approval(&mut d.s, T, &first.id, "approved", "AGM", None, None);
    d.lease(T, "restart", "runner-1", Some(&first.id), None, "2026-09-12T09:55:00Z").unwrap();
    assert_eq!(approvals::approval(&d.s, &first.id).unwrap().status, "approved");

    let second = d.ask("bot-a", "restart", "daemon", None, None).unwrap().approval;
    approvals::decide_approval(&mut d.s, T, &second.id, "approved", "AGM", None, None);
    d.lease(T, "restart", "runner-2", Some(&second.id), None, "2026-09-12T10:05:00Z").unwrap();

    assert_eq!(approvals::approval(&d.s, &first.id).unwrap().status, "consumed", "過期沒 release 的那張要被消耗掉");
    assert_eq!(approvals::approval(&d.s, &second.id).unwrap().status, "approved", "接手的這張還在用");
    assert!(!approvals::approval_decisions(&d.s, &first.id).is_empty(), "消耗要留在決定歷程裡");
}

#[test]
fn decisions_written_in_the_same_millisecond_keep_their_order() {
    let mut d = Db::new();
    let at = "2026-09-16T12:00:00.000Z";
    for (id, from, to) in [("01ZZZZZZZZZZZZZZZZZZZZZZZZ", "pending", "approved"), ("01AAAAAAAAAAAAAAAAAAAAAAAA", "approved", "revoked")] {
        d.s.decisions.push(Decision {
            id: id.to_string(),
            approval_id: "ap".to_string(),
            from: from.to_string(),
            to: to.to_string(),
            actor: "AGM".to_string(),
            reason: None,
            at: at.to_string(),
        });
    }
    let order: Vec<String> = approvals::approval_decisions(&d.s, "ap").into_iter().map(|x| x.to).collect();
    assert_eq!(order, vec!["approved", "revoked"]);
}

#[test]
fn mission_assignments_written_in_the_same_millisecond_keep_their_order() {
    let mut s = Store::new();
    let at = "2026-09-17T12:00:00.000Z";
    for (id, role) in [("01ZZZZZZZZZZZZZZZZZZZZZZZZ", "executor"), ("01AAAAAAAAAAAAAAAAAAAAAAAA", "verifier")] {
        assignments::insert_assignment_linked(&mut s, at, id, None, "bot1", &format!("crid-{id}"), "x", &[], None, true, Some(("m1", role)), None).unwrap();
    }
    let rows = assignments::mission_assignments(&s, "m1");
    let roles: Vec<&str> = rows.iter().filter_map(|a| a.mission_role.as_deref()).collect();
    assert_eq!(roles, vec!["executor", "verifier"], "同一毫秒照寫入順序，不是照 ULID");
}

#[test]
fn an_approval_is_decided_once_and_revocable() {
    let mut d = Db::new();
    let a = approvals::create_approval(&mut d.s, T, "ap1", "bot-a", "rebuild", "daemon/", Some("abc123"), Some("2099-01-01T00:00:00Z"), None)
        .unwrap()
        .approval;
    assert_eq!(a.status, "pending");
    assert_eq!(a.refusal("2026-09-12T12:00:00Z", "rebuild", Some("abc123")), Some("approval_not_decided"));
    let a = approvals::decide_approval(&mut d.s, T, &a.id, "approved", "AGM", Some("沒有人在跑"), None).unwrap();
    assert_eq!(a.refusal("2026-09-12T12:00:00Z", "rebuild", Some("abc123")), None);
    assert_eq!(a.decided_by.as_deref(), Some("AGM"));
    let a = approvals::decide_approval(&mut d.s, T, &a.id, "revoked", "AGM", Some("使用者開始新回合"), None).unwrap();
    assert_eq!(a.refusal("2026-09-12T12:00:00Z", "rebuild", Some("abc123")), Some("approval_revoked"));
    assert_eq!(approvals::approvals(&d.s, 10).len(), 1);
}

#[test]
fn a_stored_persona_is_never_overwritten_by_the_embedded_default() {
    let mut d = Db::new();
    let s = store::get_or_init(&mut d.s, T);
    assert_eq!((s.persona_version, s.persona_text), (0, None), "a fresh install has none");

    assert!(store::seed_persona_if_empty(&mut d.s, T, "內嵌版 v1"));
    let s = store::get_or_init(&mut d.s, T);
    assert_eq!(s.persona_text.as_deref(), Some("內嵌版 v1"));
    assert_eq!(s.persona_version, 1);
    assert_eq!(s.persona_source.as_deref(), Some("embedded"));
    assert_eq!(s.persona_seed_hash, s.persona_hash, "it remembers which embedded text it came from");

    assert_eq!(store::set_persona(&mut d.s, T, "使用者改過的 v2", "api", None), Ok(2));

    assert!(!store::seed_persona_if_empty(&mut d.s, T, "內嵌版 v1"), "seeding is refused once there is a persona");
    let s = store::get_or_init(&mut d.s, T);
    assert_eq!(s.persona_text.as_deref(), Some("使用者改過的 v2"));
    assert_eq!(s.persona_version, 2, "and the version does not move");
    assert_eq!(s.persona_source.as_deref(), Some("api"));
    assert_eq!(s.persona_hash.as_deref(), Some(persona::hash("使用者改過的 v2").as_str()));
    assert_eq!(s.persona_seed_hash.as_deref(), Some(persona::hash("內嵌版 v1").as_str()));

    let v = store::set_persona(&mut d.s, T, "內嵌版 v3", "embedded", Some(&persona::hash("內嵌版 v3"))).unwrap();
    let s = store::get_or_init(&mut d.s, T);
    assert_eq!((v, s.persona_text.as_deref()), (3, Some("內嵌版 v3")));
}

#[test]
fn every_summary_is_kept_as_a_versioned_note() {
    let mut d = Db::new();
    assert_eq!(store::set_summary(&mut d.s, T, "n1", "第一版"), Ok(1));
    assert_eq!(store::set_summary(&mut d.s, T, "n2", "第二版"), Ok(2));
    assert_eq!(store::get_or_init(&mut d.s, T).summary.as_deref(), Some("第二版"));
    assert_eq!(d.s.notes.iter().filter(|n| n.kind == "handoff").count(), 2, "the earlier summary is still recoverable");
    assert_eq!(store::set_summary(&mut d.s, T, "n2", "第三版"), Err(StoreError::IdTaken));
}

#[test]
fn first_upgrade_preserves_custom_bot_persona_and_embedded_baseline() {
    let mut d = Db::new();
    assert!(store::seed_persona_from(&mut d.s, T, "custom newer text", "legacy_bot", "old binary text"));
    let row = store::get_or_init(&mut d.s, T);
    assert_eq!(row.persona_text.as_deref(), Some("custom newer text"));
    assert_eq!(row.persona_source.as_deref(), Some("legacy_bot"));
    assert_eq!(row.persona_seed_hash, Some(persona::hash("old binary text")));
    assert!(!store::seed_persona_if_empty(&mut d.s, T, "another binary"));
    assert!(!store::seed_persona_from(&mut d.s, T, "outdated bot projection", "legacy_bot", "old binary"));
    assert_eq!(store::get_or_init(&mut d.s, T).persona_text.as_deref(), Some("custom newer text"));
}

#[test]
fn what_cannot_be_written_is_refused_by_name() {
    let mut d = Db::new();
    let a = d.task("req-x", "x");
    assert_eq!(assignments::insert_assignment(&mut d.s, T, &a.id, None, "b", "other", "x", &[], None, true).err(), Some(StoreError::IdTaken));
    assert_eq!(store::add_note(&mut d.s, T, "n", "k", "body"), Ok(()));
    assert_eq!(store::add_note(&mut d.s, T, "n", "k", "body"), Err(StoreError::IdTaken));
    let mut empty = Store::new();
    assert_eq!(store::bump_generation(&mut empty, T), Err(StoreError::NoSupervisor));
    assert_eq!(store::set_summary(&mut empty, T, "n", "x"), Err(StoreError::NoSupervisor));
    assert_eq!(store::set_persona(&mut empty, T, "x", "api", None), Err(StoreError::NoSupervisor));
}

#[test]
fn the_columns_are_added_in_the_order_they_came() {
    let all = migration::columns_after_tables();
    assert_eq!(all.len(), 47);
    assert_eq!(all[0].statement(), "ALTER TABLE supervisor_approvals ADD COLUMN wait_since TEXT");
    assert!(all.iter().any(|c| c.statement() == "ALTER TABLE supervisor_assignments ADD COLUMN expects_review INTEGER NOT NULL DEFAULT 1"));
    assert_eq!(migration::columns_after_roles()[0].statement(), "ALTER TABLE supervisor_roles ADD COLUMN waiting_since TEXT");
}

#[test]
fn the_states_are_all_there_and_a_decision_ends_them() {
    let states = assignment_state::states();
    let legal = |from: &str| states.iter().filter(|to| assignment_state::allowed(from, to)).count();
    assert_eq!(states.map(legal), [9, 9, 9, 5, 5, 6, 0, 0, 0, 0]);
}
