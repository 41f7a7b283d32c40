//! The guard in front of deleting what belongs to the manager.
use agm_supervisor::maintenance::LcError;
use agm_supervisor::owned;
use agm_supervisor::owned::{guard_bot_delete, guard_project_delete, load, Bot, CONFIRM};
use agm_supervisor::roles;
use agm_supervisor::roles::Role;
use agm_supervisor::store;
use agm_supervisor::store::Store;

const T: &str = "2026-09-23T13:28:00.000Z";
const CALLER: &str = "DELETE /api/bots/x peer=10.0.0.9:51234 ua=phone-safari origin=- referer=- bot=- caller_self_reported=-";

fn bot(id: &str, project: &str) -> Bot {
    Bot { id: id.into(), name: id.into(), project_id: project.into(), parent_bot_id: None, deleted: false }
}

fn agm_owns_project(project: &str) -> Store {
    let mut s = Store::new();
    store::get_or_init(&mut s, T);
    store::set_env(&mut s, T, "agm-bot", project, "/agm");
    s
}

fn body(r: Result<(), LcError>) -> serde_json::Value {
    match r {
        Err(LcError::Conflict(b)) => serde_json::from_str(&b).unwrap(),
        x => panic!("{x:?}"),
    }
}

fn ops_alerts(s: &Store) -> Vec<String> {
    s.inbox.iter().filter(|e| e.kind == "ops_alert").map(|e| e.payload_json.clone()).collect()
}

#[test]
fn the_delete_api_refuses_an_agm_bot_unless_confirmed_and_records_who_asked() {
    let mut s = agm_owns_project("p");
    let build = bot("build", "p");
    let refused = body(guard_bot_delete(&mut s, T, "e1", Some(&build), None, CALLER));
    assert_eq!(refused["reason"], "supervisor_owned", "{refused}");
    assert_eq!(refused["role"], "AGM 專案裡的常駐工人", "網頁的二次確認框要寫角色：{refused}");
    assert_eq!(refused["bot_id"], "build");
    assert!(refused["message"].as_str().unwrap().contains("?confirm=supervisor"));
    let alerts = ops_alerts(&s);
    assert!(alerts.len() == 1 && alerts[0].contains("10.0.0.9") && alerts[0].contains("build"), "{alerts:?}");
    assert!(guard_bot_delete(&mut s, T, "e2", Some(&build), Some(CONFIRM), CALLER).is_ok());
    assert!(guard_bot_delete(&mut s, T, "e3", Some(&build), Some("yes"), CALLER).is_err());
    assert_eq!(ops_alerts(&s).len(), 1);
}

#[test]
fn the_delete_api_refuses_the_agm_project_unless_confirmed() {
    let mut s = agm_owns_project("p");
    let bots = vec![bot("build", "p")];
    let refused = body(guard_project_delete(&mut s, T, "e1", "p", &bots, None, CALLER));
    assert_eq!(refused["reason"], "supervisor_owned", "{refused}");
    assert_eq!(refused["project_id"], "p", "{refused}");
    let alerts = ops_alerts(&s);
    assert!(alerts.len() == 1 && alerts[0].contains("10.0.0.9"), "{alerts:?}");
    assert!(guard_project_delete(&mut s, T, "e2", "p", &bots, Some(CONFIRM), CALLER).is_ok());
}

#[test]
fn a_project_holding_an_agm_child_is_refused_too() {
    let mut s = agm_owns_project("elsewhere");
    let mut kid = bot("agm-kid", "p");
    kid.parent_bot_id = Some("agm-bot".into());
    let refused = body(guard_project_delete(&mut s, T, "e1", "p", &vec![bot("x", "p"), kid], None, CALLER));
    assert_eq!(refused["reason"], "supervisor_owned");
}

#[test]
fn an_ordinary_project_is_not_affected_by_the_guard() {
    let mut s = Store::new();
    store::get_or_init(&mut s, T);
    let bots = vec![bot("alfa", "p")];
    assert!(guard_project_delete(&mut s, T, "e1", "p", &bots, None, CALLER).is_ok());
    assert!(guard_bot_delete(&mut s, T, "e2", Some(&bots[0]), None, CALLER).is_ok());
    assert!(guard_bot_delete(&mut s, T, "e3", None, None, CALLER).is_ok(), "a bot that is not there is the deletion's to answer");
    assert!(ops_alerts(&s).is_empty(), "沒擋任何東西就不該吵巡檢");
}

#[test]
fn each_refused_bot_gets_its_own_alert_within_the_same_hour() {
    let mut s = agm_owns_project("p");
    let (build, triage) = (bot("build", "p"), bot("agm-pxf2pv-triage", "p"));
    for (i, b) in [&build, &triage, &build].into_iter().enumerate() {
        assert!(guard_bot_delete(&mut s, T, &format!("e{i}"), Some(b), None, CALLER).is_err());
    }
    let alerts = ops_alerts(&s);
    assert_eq!(alerts.len(), 2, "兩顆各一則、同一顆連按收斂成一則：{alerts:?}");
    assert!(alerts.iter().any(|a| a.contains("build")), "{alerts:?}");
    assert!(alerts.iter().any(|a| a.contains("agm-pxf2pv-triage")), "{alerts:?}");
    assert!(guard_bot_delete(&mut s, "2026-09-23T14:00:00.000Z", "e9", Some(&build), None, CALLER).is_err());
    assert_eq!(ops_alerts(&s).len(), 3, "an hour later it is a new alert");
}

#[test]
fn there_are_names_for_what_belongs_to_the_manager() {
    let mut s = agm_owns_project("p");
    roles::set_env(&mut s, T, Role::Responder, "resp", "p2", "/r");
    let o = load(&s);
    let mut kid = bot("kid", "elsewhere");
    kid.parent_bot_id = Some("resp".into());
    let stranger = bot("x", "y");
    assert!(o.owns(&bot("agm-bot", "y")) && o.owns(&bot("resp", "y")) && o.owns(&kid) && o.owns(&bot("w", "p2")));
    assert!(!o.owns(&stranger) && !o.owns(&bot("", "")), "an empty id belongs to nobody");
    assert_eq!(o.role(&bot("agm-bot", "y")), "AGM 總管（巡檢）");
    assert_eq!(o.role(&bot("resp", "y")), "AGM 協調者");
    assert_eq!(o.role(&kid), "AGM 開出去的子 agent");
    assert_eq!(o.role(&bot("w", "p2")), "AGM 專案裡的常駐工人");
    let mut gone = bot("agm-bot", "y");
    gone.deleted = true;
    assert!(guard_bot_delete(&mut s, T, "e", Some(&gone), None, CALLER).is_ok(), "it is deleted already");
}

#[test]
fn the_subject_of_an_alert_is_plain_and_short() {
    let mut s = Store::new();
    let long = format!("a:b\n\u{7f}{}", "字".repeat(100));
    owned::alert(&mut s, T, "e1", "r", &long, "d");
    let want = format!("ab{}", "字".repeat(78));
    assert_eq!(s.inbox[0].event_key, format!("ops_alert:daemon:r:{want}:2026-09-23T13"));
    let v: serde_json::Value = serde_json::from_str(&s.inbox[0].payload_json).unwrap();
    assert_eq!(v["subject"], want);
    assert_eq!(v["detail"], "d");
    assert_eq!(v["source"], "daemon");
    owned::alert(&mut s, "short", "e2", "r", "x", "d");
    assert_eq!(s.inbox[1].event_key, "ops_alert:daemon:r:x:");
}
