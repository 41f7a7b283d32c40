//! What is wrong with the bot of a role.
use agm_supervisor::role_faults::{
    is_configured, login_evidence, note_notify_round, quota_is_blank, refresh, Faults, NOTIFY_STALL_LIMIT, REASON_NEEDS_LOGIN, REASON_NOTIFY_STALLED,
};
use agm_supervisor::roles;
use agm_supervisor::roles::Role;
use agm_supervisor::store::Store;

const RESPONDER: Role = Role::Responder;

fn turns(ids: &[&str]) -> Vec<String> {
    ids.iter().map(|s| s.to_string()).collect()
}

#[test]
fn two_interleaved_broken_turns_never_reach_the_threshold() {
    let mut f = Faults::new();
    for _ in 0..5 {
        note_notify_round(&mut f, "responder", &turns(&["A", "B"]), false);
    }
    assert_eq!(f.snapshot(RESPONDER).unwrap().failed_turns.len(), 2, "只有兩個壞回合，掃幾輪都還是兩個");
    note_notify_round(&mut f, "responder", &turns(&["C"]), false);
    assert_eq!(f.snapshot(RESPONDER).unwrap().failed_turns.len(), NOTIFY_STALL_LIMIT);
}

#[test]
fn a_round_with_any_completed_turn_resets_regardless_of_order() {
    let mut f = Faults::new();
    note_notify_round(&mut f, "responder", &turns(&["A", "B"]), false);
    note_notify_round(&mut f, "responder", &turns(&["C"]), true);
    assert!(f.snapshot(RESPONDER).unwrap().failed_turns.is_empty(), "這一輪有回合跑完＝通的");
    note_notify_round(&mut f, "some-bot", &turns(&["t9"]), false);
    note_notify_round(&mut f, "patrol", &turns(&[]), false);
    assert!(f.snapshot(Role::Patrol).is_none());
}

#[test]
fn a_probe_that_cannot_read_the_screen_is_not_a_fault() {
    let mut f = Faults::new();
    refresh(&mut f, RESPONDER, true, None, "t");
    let s = f.snapshot(RESPONDER).expect("建立過的角色要有項目");
    assert!(s.probe_failed, "沒有 active run＝這一拍沒有證據");
    assert_eq!(s.reason, None, "沒有證據不能宣告故障");
    assert_eq!(f.reason(RESPONDER), None);
}

#[test]
fn notify_stalling_is_a_fault_even_when_the_screen_cannot_be_read() {
    let mut f = Faults::new();
    note_notify_round(&mut f, "responder", &turns(&["t1", "t2"]), false);
    refresh(&mut f, RESPONDER, true, None, "t");
    assert_eq!(f.reason(RESPONDER), None, "還沒到門檻");

    note_notify_round(&mut f, "responder", &turns(&["t3"]), false);
    refresh(&mut f, RESPONDER, true, None, "t");
    assert_eq!(f.reason(RESPONDER), Some(REASON_NOTIFY_STALLED));
    assert!(f.snapshot(RESPONDER).unwrap().since.is_some(), "要記下第一次看到的時間");

    note_notify_round(&mut f, "responder", &turns(&[]), true);
    refresh(&mut f, RESPONDER, true, None, "t");
    assert!(f.snapshot(RESPONDER).unwrap().probe_failed, "畫面仍然讀不到");
    assert_eq!(f.reason(RESPONDER), None);
}

#[test]
fn a_role_that_was_never_set_up_leaves_no_entry_behind() {
    let mut f = Faults::new();
    refresh(&mut f, RESPONDER, true, None, "t");
    refresh(&mut f, Role::Patrol, false, None, "t");
    assert!(f.snapshot(RESPONDER).is_some());
    assert!(f.snapshot(Role::Patrol).is_none(), "巡檢還沒建立：不留紀錄");
    refresh(&mut f, RESPONDER, false, None, "t");
    assert!(f.snapshot(RESPONDER).is_none(), "不再建立就不留陳舊的結論");
}

#[test]
fn an_unreadable_host_is_no_evidence_of_a_blank_quota() {
    assert_eq!(quota_is_blank(false, false, None), None, "讀不到主機不是「額度空的」");
    assert_eq!(quota_is_blank(true, false, None), Some(true), "讀得到之後照常判（遠端這把 key 沒有讀數）");
    assert_eq!(quota_is_blank(true, false, Some((true, false))), Some(false));
    assert_eq!(quota_is_blank(true, false, Some((false, false))), Some(true));
    assert_eq!(quota_is_blank(true, true, Some((true, true))), Some(true), "a leftover from before the start says nothing");
}

#[test]
fn a_failed_login_takes_two_signs_and_is_kept_while_the_screen_is_dark() {
    assert_eq!(login_evidence(Some("cli"), "cli", Some(true), Some(true)), Some(true));
    assert_eq!(login_evidence(Some("cli"), "cli", Some(true), Some(false)), Some(false), "quoting the words is not a fault");
    assert_eq!(login_evidence(Some("cli"), "cli", Some(true), None), None);
    assert_eq!(login_evidence(Some("other"), "cli", Some(true), Some(true)), Some(false));
    assert_eq!(login_evidence(None, "cli", Some(true), Some(true)), None);
    let mut f = Faults::new();
    refresh(&mut f, RESPONDER, true, Some(true), "t1");
    assert_eq!(f.reason(RESPONDER), Some(REASON_NEEDS_LOGIN));
    refresh(&mut f, RESPONDER, true, None, "t2");
    assert_eq!(f.reason(RESPONDER), Some(REASON_NEEDS_LOGIN));
    assert_eq!(f.snapshot(RESPONDER).unwrap().since.as_deref(), Some("t1"));
    refresh(&mut f, RESPONDER, true, Some(false), "t3");
    assert_eq!(f.reason(RESPONDER), None);
}

#[test]
fn a_row_that_cannot_be_read_counts_as_set_up() {
    let mut s = Store::new();
    let mut row = roles::get(&mut s, "2026-09-12T10:00:00Z", Role::Responder);
    assert!(!is_configured(Some(&row)));
    row.bot_id = Some("resp".into());
    assert!(is_configured(Some(&row)));
    assert!(is_configured(None));
}

#[test]
fn a_round_is_counted_for_the_exact_name_of_a_role() {
    let mut f = Faults::new();
    note_notify_round(&mut f, " patrol", &turns(&["t1"]), false);
    note_notify_round(&mut f, "Patrol", &turns(&["t1"]), false);
    assert!(f.snapshot(Role::Patrol).is_none());
    note_notify_round(&mut f, "patrol", &turns(&["t1"]), false);
    assert_eq!(f.snapshot(Role::Patrol).unwrap().failed_turns.len(), 1);
}
