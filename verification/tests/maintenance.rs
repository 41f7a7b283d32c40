//! Windows for rebuilding and restarting: who may have one, and what keeps it shut.
use agm_supervisor::approvals;
use agm_supervisor::approvals::ApprovalError;
use agm_supervisor::inbox;
use agm_supervisor::leases;
use agm_supervisor::leases::{LeaseProof, RunState, Traffic, TurnState};
use agm_supervisor::maintenance;
use agm_supervisor::maintenance::{
    acquire, dispatch_paused, escalate_after_secs, lease_deadline, parse_escalate_mins, pause_note, release, release_restart_on_startup,
    requester_bot_id, safety, safety_as, safety_for, waited_secs, window_held, window_read, AcquireError, Acquired, BotEntry, BotProbe, Directory,
    LcError, RunEntry, RunSeen, SafetyReport, TurnSeen, WindowRequest, EXCLUSIVE,
};
use agm_supervisor::refusal::Refusal;
use agm_supervisor::rows::{Approval, Lease};
use agm_supervisor::store::Store;
use agm_supervisor::time::Instant;

const NOW: &str = "2026-09-12T12:00:00Z";
const ESCALATE: i64 = 1_800;

fn at(t: &str) -> Instant {
    let t = chrono::DateTime::parse_from_rfc3339(t).unwrap();
    Instant { secs: t.timestamp(), nanos: t.timestamp_subsec_nanos() }
}

fn minutes(n: i64) -> String {
    let t = chrono::DateTime::parse_from_rfc3339(NOW).unwrap() + chrono::Duration::minutes(n);
    t.with_timezone(&chrono::Utc).to_rfc3339_opts(chrono::SecondsFormat::Secs, true)
}

fn parsed(t: &str) -> serde_json::Value {
    serde_json::from_str(t).unwrap()
}

/// A bot with a run and its turns, each an id, a status and how far its delivery is.
struct Bot {
    id: &'static str,
    agent_status: Option<&'static str>,
    turns: Vec<(&'static str, &'static str, &'static str)>,
}

struct World {
    s: Store,
    bots: Vec<Bot>,
    n: u32,
}

impl World {
    fn new() -> World {
        World { s: Store::new(), bots: vec![], n: 0 }
    }

    fn id(&mut self) -> String {
        self.n += 1;
        format!("x{:04}", self.n)
    }

    /// A bot in the middle of a turn whose prompt has arrived.
    fn thinking(&mut self, id: &'static str) {
        self.bots.push(Bot { id, agent_status: Some("working"), turns: vec![(id, "in_flight", "ok")] });
    }

    fn bot(&mut self, id: &'static str) -> &mut Bot {
        self.bots.iter_mut().find(|b| b.id == id).unwrap()
    }

    fn traffic(&self) -> Traffic {
        let mut t = Traffic { turns: vec![], runs: vec![] };
        for b in &self.bots {
            let state = if b.agent_status.is_some() { "running" } else { "stopped" };
            t.runs.push(RunState { bot_id: b.id.into(), state: state.into(), agent_status: b.agent_status.map(String::from) });
            for (id, status, delivery) in &b.turns {
                t.turns.push(TurnState {
                    id: id.to_string(),
                    bot_id: b.id.into(),
                    status: status.to_string(),
                    delivery: Some(delivery.to_string()),
                });
            }
        }
        t
    }

    fn probes(&self) -> Vec<BotProbe> {
        let traffic = self.traffic();
        let seen = |t: Option<String>| t.map_or(TurnSeen::Quiet, TurnSeen::At);
        self.bots
            .iter()
            .map(|b| BotProbe {
                id: b.id.into(),
                name: b.id.into(),
                delivering: seen(traffic.delivery_critical_for_bot(b.id)),
                run: match b.agent_status {
                    None => RunSeen::Stopped,
                    Some(a) => RunSeen::Live {
                        agent_status: a.into(),
                        in_flight: seen(b.turns.iter().find(|t| t.1 == "in_flight").map(|t| t.0.to_string())),
                    },
                },
            })
            .collect()
    }

    fn directory(&self) -> Directory {
        Directory {
            bots: self.bots.iter().map(|b| BotEntry { id: b.id.into(), name: b.id.into(), live: true }).collect(),
            runs: vec![],
        }
    }

    fn approved(&mut self, who: &str, purpose: &str, mins: i64) -> String {
        let id = self.id();
        let then = minutes(-mins);
        approvals::create_approval(&mut self.s, &then, &id, who, purpose, "release", None, None, None).unwrap();
        approvals::decide_approval(&mut self.s, &then, &id, "approved", "AGM", None, None).unwrap();
        id
    }

    fn approved_window(&mut self, mins: i64) -> String {
        self.approved("ops", "rebuild", mins)
    }

    fn approved_restart(&mut self, mins: i64) -> String {
        self.approved("k8bw2f", "restart", mins)
    }

    fn safety(&mut self, exclude: &[&str]) -> SafetyReport {
        let probes = self.probes();
        safety(&mut self.s, NOW, &probes, &owned(exclude), ESCALATE)
    }

    fn safety_for(&mut self, approval: &str) -> SafetyReport {
        let probes = self.probes();
        safety_for(&mut self.s, NOW, &probes, &vec![], Some(approval), ESCALATE)
    }

    fn safety_as(&mut self, approval: Option<&str>, owner: &str) -> SafetyReport {
        let probes = self.probes();
        safety_as(&mut self.s, NOW, &probes, &vec![], approval, Some(owner), ESCALATE)
    }

    fn acquire(&mut self, resource: &str, owner: &str, approval: &str, exclude: &[&str]) -> Result<Acquired, AcquireError> {
        let (token, decision) = (self.id(), self.id());
        let q = WindowRequest { resource, owner, approval_id: approval, commit: None, ttl_secs: 300, require_idle: true };
        let (probes, directory, traffic) = (self.probes(), self.directory(), self.traffic());
        acquire(&mut self.s, at(NOW), &token, &decision, q, &owned(exclude), &probes, &directory, &traffic, ESCALATE)
    }

    /// What a refused request for a window is answered with.
    fn refused(&mut self, resource: &str, owner: &str, approval: &str, exclude: &[&str]) -> serde_json::Value {
        let e = self.acquire(resource, owner, approval, exclude).expect_err("a refusal");
        let q = WindowRequest { resource, owner, approval_id: approval, commit: None, ttl_secs: 300, require_idle: true };
        match e.refusal(q, at(NOW)) {
            Refusal::Conflict { detail, .. } => {
                assert_eq!(e.detail(owner, None, at(NOW)).as_deref(), Some(detail.as_str()));
                parsed(&detail)
            }
            x => panic!("expected a conflict, got {x:?}"),
        }
    }

    fn lease(&mut self, resource: &str, owner: &str, until: &str, quiet: bool, exclude: Option<&str>) -> Option<Lease> {
        let (token, decision) = (self.id(), self.id());
        let traffic = self.traffic();
        leases::acquire_lease(&mut self.s, NOW, &token, &decision, resource, owner, None, None, until, quiet, &traffic, exclude, "{}")
    }

    fn critical(&self, bot: &str) -> Option<String> {
        self.traffic().delivery_critical_for_bot(bot)
    }
}

fn owned(v: &[&str]) -> Vec<String> {
    v.iter().map(|s| s.to_string()).collect()
}

#[test]
fn a_broken_threshold_env_falls_back_to_thirty_minutes() {
    assert_eq!(parse_escalate_mins(None), 30);
    assert_eq!(parse_escalate_mins(Some("45")), 45);
    assert_eq!(parse_escalate_mins(Some("  45 ")), 45);
    for bad in ["0", "-5", "abc", "", "30m"] {
        assert_eq!(parse_escalate_mins(Some(bad)), 30, "{bad:?} 不該被當成門檻");
    }
    assert_eq!(escalate_after_secs(None), ESCALATE);
}

#[test]
fn a_queued_turn_without_a_live_run_is_not_a_delivery_in_progress() {
    let mut w = World::new();
    w.bots.push(Bot { id: "q", agent_status: Some("working"), turns: vec![("tq", "queued", "pending")] });
    assert_eq!(w.critical("q").as_deref(), Some("tq"), "還有 run：真的在等送出");
    w.bot("q").agent_status = None;
    assert_eq!(w.critical("q"), None, "run 沒了：遺留的那筆不擋");
    assert!(w.safety(&[]).delivering.is_empty());
    w.bot("q").agent_status = Some("idle");
    w.bot("q").turns = vec![("tq", "failed", "failed"), ("tp", "in_flight", "pending")];
    assert_eq!(w.critical("q").as_deref(), Some("tp"));
}

#[test]
fn a_queued_prompt_behind_a_bot_waiting_for_the_user_holds_the_window_only_once_it_can_flush() {
    let mut w = World::new();
    w.bots.push(Bot { id: "ask", agent_status: Some("working"), turns: vec![("tq_ask", "in_flight", "ok"), ("tq_next", "queued", "pending")] });
    let waited = w.approved_window(40);

    assert_eq!(w.critical("ask").as_deref(), Some("tq_next"));
    let detail = w.refused("rebuild", "ops", &waited, &[]);
    assert_eq!(detail["safety"]["delivering"][0]["turn_id"], "tq_next", "{detail}");

    w.bot("ask").agent_status = Some("blocked");
    assert_eq!(w.critical("ask"), None);
    let s = w.safety_for(&waited);
    assert_eq!((s.safe, s.delivering.len()), (true, 0));
    assert_eq!(s.blocked_waiting_for_user[0].bot_id, "ask", "照實回報在等使用者");

    w.bot("ask").agent_status = Some("working");
    assert_eq!(w.critical("ask").as_deref(), Some("tq_next"));
    assert!(!w.safety_for(&waited).safe);

    w.bot("ask").turns = vec![("tq_ask", "completed", "ok"), ("tq_next", "in_flight", "pending")];
    w.bot("ask").agent_status = Some("blocked");
    assert_eq!(w.critical("ask").as_deref(), Some("tq_next"));

    w.bot("ask").turns = vec![("tq_next", "in_flight", "ok")];
    let taken = w.acquire("rebuild", "ops", &waited, &[]).unwrap();
    assert_eq!(taken.lease.owner.as_deref(), Some("ops"), "送達之後只剩思考中，縮小封鎖面就放行");
}

#[test]
fn only_a_window_that_waited_past_the_threshold_stops_blocking_on_thinking() {
    let mut w = World::new();
    w.thinking("user");
    let s = w.safety(&[]);
    assert_eq!((s.safe, s.escalated), (false, false));
    assert_eq!(s.waited(), None);
    assert!(parsed(&s.to_json())["waited_secs"].is_null());
    assert_eq!(s.working.len(), 1);

    let id = w.approved_window(10);
    let s = w.safety(&[]);
    assert!(!s.escalated, "10 分鐘就放寬的話這條規則等於沒有界線");
    assert!(!s.safe);
    assert_eq!(s.waited(), Some(600));
    assert_eq!(parsed(&s.to_json())["escalation_approval_id"], id);

    w.s.approvals[0].decided_at = Some(minutes(-40));
    let s = w.safety(&[]);
    assert_eq!((s.escalated, s.safe), (true, true));
    assert_eq!(s.waited(), Some(2400));
    assert_eq!(s.working.len(), 1, "還是照實回報誰在跑，只是不再擋");
    assert_eq!(s.escalate_after_secs, 1800);
}

#[test]
fn waiting_past_the_threshold_never_makes_a_quiet_box_unsafe() {
    let mut w = World::new();
    w.bots.push(Bot { id: "idle", agent_status: Some("idle"), turns: vec![("tb", "queued", "pending")] });
    let fresh = w.approved_window(0);
    let quiet = w.safety_for(&fresh);
    assert_eq!((quiet.escalated, quiet.safe), (false, true), "全靜止：safe");

    let waited = w.approved_window(40);
    let relaxed = w.safety_for(&waited);
    assert!(relaxed.escalated);
    assert_eq!(relaxed.delivering.len(), 1, "照實列出那一則");
    assert!(relaxed.safe, "等得越久不能越難開");

    w.thinking("busy");
    assert!(!w.safety_for(&waited).safe);
}

#[test]
fn a_window_is_only_relaxed_by_its_own_wait() {
    let mut w = World::new();
    w.thinking("user");
    let old = w.approved_window(40);
    let fresh = w.approved_window(0);

    let by_old = w.safety_for(&old);
    assert_eq!((by_old.escalated, by_old.safe), (true, true));
    assert_eq!(by_old.escalation.as_ref().unwrap().approval_id, old);
    let by_fresh = w.safety_for(&fresh);
    assert_eq!((by_fresh.escalated, by_fresh.safe), (false, false));
    assert_eq!(by_fresh.escalation.as_ref().unwrap().approval_id, fresh);
    assert!(by_fresh.waited().unwrap() < 60);

    let plain = w.safety(&[]);
    assert_eq!((plain.escalated, plain.escalation.as_ref().unwrap().approval_id.as_str()), (true, old.as_str()));

    for bad in ["01UNKNOWN", ""] {
        let s = w.safety_for(bad);
        assert_eq!((s.escalated, s.safe), (false, false), "{bad:?}");
    }
    approvals::decide_approval(&mut w.s, NOW, &old, "consumed", "AGM", None, None);
    assert!(!w.safety_for(&old).escalated, "用掉的核准不能再拿來計時");
}

#[test]
fn acquire_with_a_fresh_approval_does_not_borrow_another_ones_wait() {
    let mut w = World::new();
    w.thinking("user");
    let old = w.approved_window(40);
    let fresh = w.approved_window(0);
    let detail = w.refused("rebuild", "ops", &fresh, &[]);
    assert_eq!(detail["reason"], "not_idle");
    assert_eq!(detail["safety"]["escalated"], false, "B 自己才剛核下來");
    assert!(leases::leases(&w.s).is_empty(), "拿不到就什麼都不該留下");

    let taken = w.acquire("rebuild", "ops", &old, &[]).unwrap();
    assert!(taken.safety.escalated);
    assert_eq!(taken.safety.escalation.as_ref().unwrap().approval_id, old);
    assert_eq!(taken.lease.owner.as_deref(), Some("ops"));
}

#[test]
fn the_relaxed_window_still_waits_for_delivery_and_leases() {
    let mut w = World::new();
    w.thinking("user");
    w.approved_window(40);
    assert!(w.safety(&[]).safe, "先確認這個盤面本來是安全的");

    w.bot("user").turns = vec![("user", "in_flight", "pending")];
    let s = w.safety(&[]);
    assert!(!s.safe, "送達臨界區不能被打斷");
    assert_eq!(s.delivering[0].bot_id, "user");

    w.bot("user").turns = vec![("user", "in_flight", "ok"), ("q", "queued", "pending")];
    let s = w.safety(&[]);
    assert!(!s.safe, "排隊中待送的 prompt 也算臨界區");
    assert_eq!(s.delivering[0].turn_id, "q");

    w.bot("user").turns = vec![("user", "in_flight", "ok")];
    assert!(w.safety(&[]).safe);
    w.lease("rebuild", "someone-else", &minutes(5), false, None).unwrap();
    let s = w.safety(&[]);
    assert!(!s.safe, "窗口一次只給一個人");
    assert_eq!(parsed(&s.to_json())["held_leases"][0]["owner"], "someone-else");
}

#[test]
fn a_window_is_not_taken_while_a_prompt_is_in_the_delivery_critical_section() {
    let mut w = World::new();
    w.bots.push(Bot { id: "tb", agent_status: Some("idle"), turns: vec![("tt", "in_flight", "pending")] });
    let until = minutes(5);
    assert!(w.traffic().delivery_critical_anywhere());
    assert!(w.lease("restart", "k8bw2f", &until, true, None).is_none(), "有人在送達臨界區：窗口拿不走");
    assert!(window_held(&w.s, NOW).unwrap().is_none(), "沒拿到就沒有窗口");

    w.bot("tb").turns = vec![("tt", "in_flight", "ok")];
    assert!(!w.traffic().delivery_critical_anywhere());
    assert!(w.lease("restart", "k8bw2f", &until, true, None).is_some(), "沒有人在送達臨界區：拿得到");
    let held = window_held(&w.s, NOW).unwrap().expect("拿到了就擋");
    assert_eq!((held.resource, held.owner.as_str()), ("restart", "k8bw2f"));
    assert_eq!(held.retry_after_secs(NOW), 300);

    w.bot("tb").turns = vec![("tt", "in_flight", "pending")];
    assert!(w.lease("rebuild", "k8bw2f", &until, false, None).is_some(), "rebuild 不看送達臨界區");
}

#[test]
fn the_requester_is_not_blocked_by_its_own_turn_but_everyone_else_still_blocks() {
    let mut w = World::new();
    w.bots.push(Bot { id: "mine", agent_status: Some("idle"), turns: vec![("t1", "in_flight", "pending")] });
    w.bots.push(Bot { id: "other", agent_status: Some("idle"), turns: vec![] });
    let until = minutes(5);
    assert!(w.lease("restart", "mine", &until, true, None).is_none());
    let taken = w.lease("restart", "mine", &until, true, Some("mine")).expect("放過申請者自己那顆之後就拿得到");
    assert!(leases::release_lease(&mut w.s, NOW, "restart", "mine", taken.fence));

    w.bot("other").turns = vec![("t2", "in_flight", "pending")];
    assert!(w.lease("restart", "mine", &until, true, Some("mine")).is_none(), "別顆 bot 正在送達臨界區，窗口就不該拿得到");
    w.bot("other").turns = vec![("t2", "in_flight", "ok")];
    assert!(w.lease("restart", "mine", &until, true, Some("mine")).is_some());
}

#[test]
fn a_restart_window_may_only_ignore_the_requesters_own_bot() {
    let mut w = World::new();
    w.bots.push(Bot { id: "mine", agent_status: None, turns: vec![] });
    w.bots.push(Bot { id: "other", agent_status: None, turns: vec![] });
    let a = w.approved("mine", "restart", 0);
    let v = w.refused("restart", "mine", &a, &["other"]);
    assert_eq!(v.get("reason").and_then(|r| r.as_str()), Some("exclude_not_requester"), "{v}");
    assert_eq!(v.get("excluded").and_then(|r| r.as_str()), Some("other"), "{v}");
    assert_eq!((v["requester"].as_str(), v["requester_bot_id"].as_str()), (Some("mine"), Some("mine")));
    let ok = w.acquire("restart", "mine", &a, &["mine"]).unwrap();
    assert_eq!(ok.lease.owner.as_deref(), Some("mine"));
}

#[test]
fn the_requester_can_be_the_agent_name_not_just_the_bot_name() {
    let d = Directory {
        bots: vec![BotEntry { id: "b-m3".into(), name: "AM-m3".into(), live: true }],
        runs: vec![RunEntry {
            bot_id: "b-m3".into(),
            agent_name: Some("agents-manager-15m2dg".into()),
            state: "running".into(),
            started_at: NOW.into(),
        }],
    };
    assert_eq!(requester_bot_id(&d, "b-m3").as_deref(), Some("b-m3"), "bot id");
    assert_eq!(requester_bot_id(&d, "AM-m3").as_deref(), Some("b-m3"), "bot 名");
    assert_eq!(requester_bot_id(&d, "agents-manager-15m2dg").as_deref(), Some("b-m3"), "agent 名");
    assert!(requester_bot_id(&d, "daemon-update-kick").is_none(), "腳本身分對不到 bot");
    assert!(requester_bot_id(&d, "  ").is_none());
}

#[test]
fn a_refused_window_says_when_the_approval_escalates() {
    let mut w = World::new();
    w.bots.push(Bot { id: "busy", agent_status: Some("working"), turns: vec![] });
    let ap = w.approved_restart(1);
    let v = w.refused("restart", "k8bw2f", &ap, &[]);
    assert_eq!(v.get("reason").and_then(|r| r.as_str()), Some("not_idle"));
    assert_eq!(v["waited_secs"], 60, "{v}");
    assert_eq!(v["escalate_after_secs"], ESCALATE, "{v}");
    assert_eq!(v["escalates_at"], "2026-09-12T12:29:00.000Z", "要說得出預計什麼時候可以拿：{v}");
    assert_eq!(
        v["hint"],
        "同一張核准等滿 1800s 之後 working 就不再擋（只剩送達臨界區、別人的租約、讀不到狀態）；預計 2026-09-12T12:29:00.000Z 可以拿。帶同一張 --approval 再試，換一張會重算。"
    );
    let waited = w.approved_restart(40);
    w.lease("rebuild", "someone-else", &minutes(5), false, None).unwrap();
    let v = w.refused("restart", "k8bw2f", &waited, &[]);
    assert!(v["escalates_at"].is_null() && v["hint"].is_null(), "waiting longer does not help: {v}");
}

#[test]
fn an_expired_window_stops_fencing_by_itself() {
    let mut w = World::new();
    w.lease("restart", "k8bw2f", &minutes(5), true, None).unwrap();
    assert!(window_held(&w.s, NOW).unwrap().is_some());
    w.s.leases[0].expires_at = Some(minutes(-1));
    assert!(leases::lease(&w.s, "restart").unwrap().released_at.is_none(), "沒有人 release");
    assert!(window_held(&w.s, NOW).unwrap().is_none(), "過期就自動不再擋");
    assert!(dispatch_paused(&w.s, NOW).unwrap().is_none(), "派工那條讀的是同一份");
}

#[test]
fn the_gate_tells_no_window_from_a_window_it_cannot_read() {
    let mut w = World::new();
    assert!(window_held(&w.s, NOW).unwrap().is_none(), "明確沒有窗口：放行");
    w.lease("restart", "k8bw2f", &minutes(5), false, None).unwrap();
    assert!(window_held(&w.s, NOW).unwrap().is_some(), "明確有窗口：擋");

    let u = window_read(Err("no such table".to_string()), NOW).expect_err("讀不到要回 Err，不能當成沒有窗口");
    assert_eq!((u.resource, u.error.as_str()), ("restart", "no such table"));
    assert!(window_held(&w.s, NOW).unwrap().is_some(), "恢復後重新判斷：窗口還在就擋");

    for bad in [None, Some("not-a-time"), Some("\"quoted\"\n"), Some("")] {
        w.s.leases[0].expires_at = bad.map(String::from);
        let u = window_held(&w.s, NOW).expect_err("到期時間讀不懂＝讀不到");
        assert_eq!(u.error, format!("lease is not released but its expires_at is unreadable: {bad:?}"));
        assert!(dispatch_paused(&w.s, NOW).is_err());
    }
    w.s.leases[0].released_at = Some(NOW.into());
    assert!(window_held(&w.s, NOW).unwrap().is_none(), "放掉了就是放掉了");
}

#[test]
fn an_unreadable_window_is_a_503_that_says_nothing_was_sent_and_a_real_window_stays_a_409() {
    let mut w = World::new();
    w.lease("restart", "k8bw2f", &minutes(5), false, None).unwrap();
    match window_held(&w.s, NOW).unwrap().unwrap().refusal(NOW) {
        LcError::Conflict(body) => {
            let v = parsed(&body);
            assert_eq!((v["reason"].as_str(), v["held_by"].as_str()), (Some("maintenance_window"), Some("k8bw2f")));
            assert_eq!(v["retry_after_secs"], 300);
        }
        x => panic!("真的有窗口：409 {x:?}"),
    }
    match window_read(Err("boom".to_string()), NOW).unwrap_err().refusal() {
        LcError::Unavailable(body) => {
            let body = parsed(&body);
            assert_eq!(body["reason"], "maintenance_state_unavailable", "{body}");
            assert_eq!(body["retryable"], true, "{body}");
            assert_eq!(body["sent"], false, "{body}");
            assert_eq!(body["resource"], "restart", "{body}");
            assert!(body["retry_after_secs"].as_i64().unwrap_or(0) > 0, "{body}");
            assert!(body.get("held_by").is_none() && body.get("expires_at").is_none(), "不編一個假的持有者／到期時間：{body}");
        }
        x => panic!("要是 Unavailable {x:?}"),
    }
}

#[test]
fn my_own_rebuild_lease_does_not_block_my_escalated_restart() {
    let mut w = World::new();
    w.thinking("user");
    w.lease("rebuild", "k8bw2f", &minutes(50), false, None).unwrap();
    let restart = w.approved_restart(40);
    let taken = w.acquire("restart", "k8bw2f", &restart, &[]).unwrap();
    let s = parsed(&taken.safety.to_json());
    assert_eq!(s["escalated"], true);
    assert_eq!(s["held_leases"][0]["owner"], "k8bw2f");
    assert_eq!(s["held_leases"][0]["own"], true, "自己的那把要標出來，而且不算擋");
    assert_eq!(taken.lease.owner.as_deref(), Some("k8bw2f"));
}

#[test]
fn someone_elses_rebuild_lease_still_blocks_an_escalated_restart() {
    let mut w = World::new();
    w.thinking("user");
    w.lease("rebuild", "someone-else", &minutes(50), false, None).unwrap();
    let restart = w.approved_restart(40);
    let detail = w.refused("restart", "k8bw2f", &restart, &[]);
    assert_eq!(detail["reason"], "not_idle");
    assert_eq!(detail["safety"]["escalated"], true, "有升級，擋下來的是別人的租約");
    assert_eq!(detail["safety"]["held_leases"][0]["owner"], "someone-else");
    assert_eq!(detail["safety"]["held_leases"][0]["own"], false);
    assert!(leases::lease(&w.s, "restart").is_none(), "拿不到就什麼都不該留下");
}

#[test]
fn read_only_safety_only_excludes_leases_when_asked_as_their_owner() {
    let mut w = World::new();
    w.thinking("user");
    w.lease("rebuild", "k8bw2f", &minutes(50), false, None).unwrap();
    let restart = w.approved_restart(40);

    let anonymous = w.safety_for(&restart);
    assert_eq!((anonymous.escalated, anonymous.safe), (true, false), "不帶 owner：每一把都算擋");
    let v = parsed(&anonymous.to_json());
    assert_eq!(v["held_leases"][0]["owner"], "k8bw2f");
    assert_eq!(v["held_leases"][0]["own"], false);
    assert!(v["owner"].is_null());

    let mine = w.safety_as(Some(&restart), "k8bw2f");
    assert!(mine.safe, "以握著它的人問：自己的租約不擋");
    let v = parsed(&mine.to_json());
    assert_eq!(v["held_leases"][0]["own"], true);
    assert_eq!(v["owner"], "k8bw2f");

    assert!(!w.safety_as(Some(&restart), "someone-else").safe, "別人問照擋");

    w.s.approvals.clear();
    let strict = w.safety_as(None, "k8bw2f");
    assert!(!strict.escalated);
    assert!(!strict.safe, "非升級模式行為不變：有人在思考就不安全");
}

#[test]
fn excluded_agm_bots_are_ignored_at_both_thresholds() {
    let mut w = World::new();
    for id in ["manager", "responder", "builder"] {
        w.thinking(id);
    }
    w.bot("builder").turns = vec![("builder", "in_flight", "pending")];
    let exclude = ["manager", "responder", "builder"];
    let strict = w.safety(&exclude);
    assert_eq!((strict.escalated, strict.safe), (false, true));
    assert!(strict.working.is_empty());

    w.approved_window(40);
    let relaxed = w.safety(&exclude);
    assert_eq!((relaxed.escalated, relaxed.safe), (true, true));
    assert!(relaxed.delivering.is_empty(), "被排除的 bot 連送達中都不算數");
    assert!(!w.safety(&[]).safe);
}

#[test]
fn someone_elses_approval_does_not_open_my_window() {
    let mut w = World::new();
    let a = w.approved_window(40);
    let detail = w.refused("rebuild", "bot-b", &a, &[]);
    assert_eq!(detail["reason"], "approval_owner_mismatch");
    assert_eq!((detail["requester"].as_str(), detail["owner"].as_str()), (Some("ops"), Some("bot-b")));
    assert!(leases::lease(&w.s, "rebuild").is_none(), "什麼都沒拿到");
    assert_eq!(approvals::approval(&w.s, &a).unwrap().status, "approved", "A 的核准原封不動");
    w.acquire("rebuild", "ops", &a, &[]).expect("申請者自己照常拿得到");
}

#[test]
fn an_approval_whose_window_expired_unreleased_cannot_open_another() {
    let mut w = World::new();
    let a = w.approved_window(0);
    w.acquire("rebuild", "ops", &a, &[]).unwrap();
    let decided_at = approvals::approval(&w.s, &a).unwrap().decided_at;
    w.s.leases[0].expires_at = Some("2000-01-01T00:00:00Z".into());

    let detail = w.refused("rebuild", "ops", &a, &[]);
    assert_eq!(detail["reason"], "approval_already_used");
    assert_eq!((detail["approval_id"].as_str(), detail["fence"].as_i64()), (Some(a.as_str()), Some(1)));
    let after = approvals::approval(&w.s, &a).unwrap();
    assert_eq!(after.status, "consumed", "那個窗口已經用掉它，當場記下來");
    assert_eq!(after.decided_at, decided_at, "消耗不是裁示，不覆寫核准時間");
    assert_eq!(after.decided_by.as_deref(), Some("AGM"));
    assert!(approvals::approval_decisions(&w.s, &a).iter().any(|n| n.to == "consumed"), "誰在什麼時候消耗的記在歷程裡");

    let b = w.approved_window(0);
    w.acquire("rebuild", "ops", &b, &[]).expect("別張核准照常接手");
}

fn ask_again(w: &mut World, who: &str, purpose: &str, commit: &str, old: &str) -> Result<approvals::ApprovalOutcome, ApprovalError> {
    let (id, decision) = (w.id(), w.id());
    approvals::create_approval_superseding(&mut w.s, NOW, &id, &decision, who, purpose, "release", Some(commit), None, None, Some(old), None)
}

#[test]
fn a_new_commit_carries_the_wait_of_the_approval_it_supersedes() {
    let mut w = World::new();
    w.thinking("user");
    let old = w.approved_window(40);
    let decided_old = approvals::approval(&w.s, &old).unwrap().decided_at.unwrap();

    let out = ask_again(&mut w, "ops", "rebuild", "h2", &old).unwrap();
    assert_eq!(out.superseded.as_deref(), Some(old.as_str()));
    let new = out.approval;
    assert_eq!(new.wait_since.as_deref(), Some(decided_old.as_str()), "接過來的是舊那筆被核准的時間");
    let o = approvals::approval(&w.s, &old).unwrap();
    assert_eq!(o.status, "superseded");
    assert_eq!(o.refusal(NOW, "rebuild", None), Some("approval_superseded"));
    assert_eq!(o.decided_at.as_deref(), Some(decided_old.as_str()), "取代不覆寫核准時間");

    approvals::decide_approval(&mut w.s, NOW, &new.id, "approved", "AGM", None, None);
    let s = w.safety_for(&new.id);
    assert_eq!((s.escalated, s.safe), (true, true));
    assert!(s.waited().unwrap() >= 2400);

    let third = ask_again(&mut w, "ops", "rebuild", "h3", &new.id).unwrap().approval;
    assert_eq!(third.wait_since.as_deref(), Some(decided_old.as_str()));
    for (who, purpose) in [("bot-b", "rebuild"), ("ops", "restart")] {
        assert!(matches!(ask_again(&mut w, who, purpose, "h4", &third.id), Err(ApprovalError::SupersedeRefused(_))), "{who}/{purpose}");
    }
    assert_eq!(approvals::approval(&w.s, &third.id).unwrap().status, "pending", "被拒的取代什麼都不動");

    approvals::decide_approval(&mut w.s, NOW, &third.id, "denied", "AGM", None, None);
    let fresh = ask_again(&mut w, "ops", "rebuild", "h5", &third.id).unwrap();
    assert_eq!((fresh.superseded, fresh.approval.wait_since), (None, None));
    assert_eq!(approvals::approval(&w.s, &third.id).unwrap().status, "denied");
}

#[test]
fn superseding_retires_the_old_requests_unsent_inbox_event() {
    let mut w = World::new();
    approvals::create_approval(&mut w.s, NOW, "ap1", "ops", "rebuild", "release", Some("h1"), None, None).unwrap();
    inbox::push_inbox(&mut w.s, NOW, "e1", "approval:ap1:requested", "approval_requested", None, None, None, "{}").unwrap();
    ask_again(&mut w, "ops", "rebuild", "h2", "ap1").unwrap();
    let e = &w.s.inbox[0];
    assert_eq!((e.state.as_str(), e.acked_by.as_deref()), ("handled", Some("daemon")));
}

fn approval(status: &str, purpose: &str, commit: Option<&str>, expires: Option<&str>) -> Approval {
    Approval {
        request_reason: None,
        id: "ap1".into(),
        supervisor_id: "AGM".into(),
        requester: "bot-x".into(),
        purpose: purpose.into(),
        scope: "daemon".into(),
        target_commit: commit.map(str::to_string),
        status: status.into(),
        decided_by: Some("AGM".into()),
        decided_at: Some("2026-09-12T00:00:00Z".into()),
        reason: None,
        expires_at: expires.map(str::to_string),
        client_request_id: None,
        created_at: "2026-09-12T00:00:00Z".into(),
        updated_at: "2026-09-12T00:00:00Z".into(),
        wait_since: None,
    }
}

#[test]
fn only_an_approved_unexpired_approval_for_this_commit_counts() {
    let ok = approval("approved", "rebuild", Some("abc123"), Some("2026-09-12T13:00:00Z"));
    assert_eq!(ok.refusal(NOW, "rebuild", Some("abc123")), None);
    assert_eq!(ok.refusal(NOW, "rebuild", Some("def456")), Some("approval_commit_mismatch"));
    assert_eq!(ok.refusal(NOW, "restart", Some("abc123")), Some("approval_purpose_mismatch"));
    assert_eq!(ok.refusal(NOW, "rebuild", None), Some("approval_commit_required"));
    let expired = approval("approved", "rebuild", Some("abc123"), Some("2026-09-12T11:00:00Z"));
    assert_eq!(expired.refusal(NOW, "rebuild", Some("abc123")), Some("approval_expired"));
}

#[test]
fn a_revoked_or_undecided_approval_is_not_a_yes() {
    for (status, why) in [
        ("pending", "approval_not_decided"),
        ("denied", "approval_denied"),
        ("revoked", "approval_revoked"),
        ("consumed", "approval_already_used"),
    ] {
        let a = approval(status, "rebuild", None, None);
        assert_eq!(a.refusal(NOW, "rebuild", None), Some(why), "{status}");
    }
    assert_eq!(approval("approved", "rebuild", None, None).refusal(NOW, "rebuild", Some("x")), None);
}

#[test]
fn a_restart_window_pauses_dispatch_but_a_rebuild_does_not() {
    assert!(EXCLUSIVE.contains(&"restart"));
    assert!(!EXCLUSIVE.contains(&"rebuild"));
    assert!(pause_note("2026-09-12T12:15:00Z").contains("12:15"));
}

#[test]
fn a_lease_never_outlives_its_approval() {
    let asked = "2026-09-12T12:45:00Z";
    assert_eq!(lease_deadline(asked, Some("2026-09-12T14:00:00Z")), asked, "approval outlasts it: keep the ask");
    assert_eq!(
        lease_deadline(asked, Some("2026-09-12T12:10:00Z")),
        "2026-09-12T12:10:00Z",
        "approval lapses first: the lease ends with it"
    );
    assert_eq!(lease_deadline(asked, None), asked);
}

#[test]
fn what_cannot_be_asked_for_is_refused_by_name() {
    let mut w = World::new();
    let a = w.approved_window(0);
    assert!(matches!(w.acquire("disk", "ops", &a, &[]), Err(AcquireError::UnknownResource)));
    assert!(matches!(w.acquire("rebuild", "ops", "nope", &[]), Err(AcquireError::NoApproval)));
    assert!(w.s.supervisor.is_none(), "nothing was looked at that needs the row of the manager");
    let v = w.refused("restart", "ops", &a, &[]);
    assert_eq!((v["reason"].as_str(), v["status"].as_str()), (Some("approval_purpose_mismatch"), Some("approved")));
    assert!(v["target_commit"].is_null() && v["requested_commit"].is_null());
    let r = w.approved_restart(0);
    let q = WindowRequest { resource: "restart", owner: "k8bw2f", approval_id: &r, commit: None, ttl_secs: 300, require_idle: false };
    let (probes, directory, traffic) = (w.probes(), w.directory(), w.traffic());
    let res = acquire(&mut w.s, at(NOW), "t", "d", q, &vec![], &probes, &directory, &traffic, ESCALATE);
    assert!(matches!(res, Err(AcquireError::IdleCheckRequired)));
    let words = |e: AcquireError, resource| e.refusal(WindowRequest { resource, ..q }, at(NOW));
    assert_eq!(words(AcquireError::UnknownResource, "disk"), Refusal::Bad("unknown lease resource: disk".into()));
    assert_eq!(words(AcquireError::NoApproval, "rebuild"), Refusal::NotFound("approval".into()));
    assert_eq!(
        words(AcquireError::IdleCheckRequired, "restart"),
        Refusal::Bad("the `restart` window cannot skip the idle check; wait for a safe window instead".into())
    );
    match words(AcquireError::Raced, "restart") {
        Refusal::Conflict { message, detail } => {
            assert_eq!(message, "a prompt entered the delivery critical section while this window was being taken");
            let v = parsed(&detail);
            assert_eq!((v["reason"].as_str(), v["raced"].as_bool()), (Some("not_idle"), Some(true)));
            assert_eq!(v["checked_at"], "2026-09-12T12:00:00.000Z");
        }
        x => panic!("{x:?}"),
    }
    w.acquire("rebuild", "ops", &a, &[]).unwrap();
    let b = w.approved_window(0);
    let v = w.refused("rebuild", "ops", &b, &[]);
    assert_eq!((v["reason"].as_str(), v["lease"]["owner"].as_str()), (Some("lease_held"), Some("ops")));
    let nobody = AcquireError::Held { lease: None }.detail("ops", None, at(NOW)).unwrap();
    assert!(parsed(&nobody)["lease"].is_null());
    assert!(w.s.supervisor.is_some(), "asking whether it is safe makes the row of the manager");
}

#[test]
fn a_bot_that_cannot_be_read_keeps_the_window_shut() {
    let mut w = World::new();
    let a = w.approved_window(40);
    let dark = vec![BotProbe { id: "b".into(), name: "b".into(), delivering: TurnSeen::Unreadable, run: RunSeen::Unreadable }];
    let s = safety_for(&mut w.s, NOW, &dark, &vec![], Some(&a), ESCALATE);
    assert_eq!((s.escalated, s.safe, s.unreadable.len()), (true, false, 2), "the delivery and the run are each unreadable");
}

#[test]
fn a_window_is_given_back_by_whoever_shows_its_token() {
    let mut w = World::new();
    let a = w.approved_restart(0);
    let taken = w.acquire("restart", "k8bw2f", &a, &[]).unwrap();
    let token = leases::lease_token(&w.s, "restart").unwrap();
    assert_eq!(taken.lease.expires_at.as_deref(), Some("2026-09-12T12:05:00.000Z"));
    assert!(!taken.lease.to_json(NOW).contains(&token), "the token is never shown");
    let told = parsed(&taken.to_json(Some(&token), NOW));
    assert_eq!((told["lease_token"].as_str(), told["lease"]["owner"].as_str()), (Some(token.as_str()), Some("k8bw2f")));
    assert_eq!((told["approval"]["id"].as_str(), told["safety"]["safe"].as_bool()), (Some(a.as_str()), Some(true)));
    assert!(release(&mut w.s, NOW, "d1", "restart", "k8bw2f", taken.lease.fence, LeaseProof::Token("guess")).is_err());
    assert_eq!(release(&mut w.s, NOW, "d2", "restart", "k8bw2f", taken.lease.fence, LeaseProof::Token(&token)).ok(), Some(true));
    assert_eq!(approvals::approval(&w.s, &a).unwrap().status, "consumed", "one approval is one window");
    assert!(window_held(&w.s, NOW).unwrap().is_none());

    let b = w.approved_restart(0);
    w.acquire("restart", "k8bw2f", &b, &[]).unwrap();
    assert!(release_restart_on_startup(&mut w.s, NOW, "d3"), "a restart ends its window");
    assert!(!release_restart_on_startup(&mut w.s, NOW, "d4"));
    assert_eq!(maintenance::window_closed(&mut w.s, NOW), 0);
}

#[test]
fn time_that_cannot_be_read_counts_as_no_wait() {
    assert_eq!(waited_secs("2026-09-12T11:59:00.600Z", NOW), 59);
    assert_eq!(waited_secs(NOW, "2026-09-12T11:00:00Z"), 0);
    assert_eq!(waited_secs("rubbish", NOW), 0);
}

#[test]
fn a_refused_request_says_what_is_wrong_with_it() {
    let mut w = World::new();
    approvals::create_approval(&mut w.s, NOW, "ap1", "ops", "rebuild", "release", Some("h1"), None, Some("rq")).unwrap();
    match approvals::create_approval(&mut w.s, NOW, "ap2", "ops", "rebuild", "release", Some("h2"), None, Some(" rq ")) {
        Err(ApprovalError::Mismatch(m)) => {
            assert_eq!(m.message(), "request id `rq` 已經是另一筆申請（target_commit：`h1` → `h2`），換一個 id 或沿用原本那筆 ap1");
        }
        x => panic!("{x:?}"),
    }
    match ask_again(&mut w, "ops", "rebuild", "h2", "nope") {
        Err(ApprovalError::SupersedeRefused(e)) => assert_eq!(e.message(), "approval `nope` 不能被這筆取代：approval_not_found"),
        x => panic!("{x:?}"),
    }
}

#[test]
fn every_window_has_a_higher_fence_than_the_one_before() {
    let mut w = World::new();
    let until = minutes(5);
    let first = w.lease("rebuild", "ops", &until, false, None).unwrap();
    assert_eq!(first.fence, 1);
    assert!(w.lease("rebuild", "bot-b", &until, false, None).is_none(), "one holder at a time");
    assert!(leases::renew_lease(&mut w.s, NOW, "rebuild", "ops", 1, &minutes(10)));
    assert!(leases::release_lease(&mut w.s, NOW, "rebuild", "ops", 1));
    let second = w.lease("rebuild", "bot-b", &until, false, None).unwrap();
    assert_eq!((second.fence, second.owner.as_deref(), second.expires_at.as_deref()), (2, Some("bot-b"), Some(until.as_str())));
    assert_eq!(w.lease("restart", "bot-b", &until, false, None).unwrap().fence, 1, "each resource counts its own");
    assert!(!leases::renew_lease(&mut w.s, NOW, "rebuild", "ops", 1, &minutes(10)), "an old fence holds nothing");
    assert!(leases::force_release_lease(&mut w.s, NOW, "rebuild"));
    assert_eq!(w.lease("rebuild", "ops", &until, false, None).unwrap().fence, 3);
}

#[test]
fn a_threshold_beyond_the_calendar_refuses_nobody_who_need_not_wait() {
    let mut w = World::new();
    let a = w.approved_window(0);
    let q = WindowRequest { resource: "rebuild", owner: "ops", approval_id: &a, commit: None, ttl_secs: 300, require_idle: true };
    let (probes, directory, traffic) = (w.probes(), w.directory(), w.traffic());
    let taken = acquire(&mut w.s, at(NOW), "t", "d", q, &vec![], &probes, &directory, &traffic, i64::MAX).unwrap();
    assert_eq!(taken.lease.owner.as_deref(), Some("ops"));
    assert!(!at(NOW).has_room(i64::MAX as u64));
    assert!(at(NOW).has_room(3_600));
}

#[test]
fn a_decided_approval_stays_decided() {
    let mut w = World::new();
    for id in ["ap1", "ap2"] {
        approvals::create_approval(&mut w.s, NOW, id, "ops", "rebuild", "release", None, None, None).unwrap();
    }
    let denied = approvals::decide_approval(&mut w.s, NOW, "ap1", "denied", "AGM", Some("not now"), None).unwrap();
    assert_eq!((denied.status.as_str(), denied.reason.as_deref()), ("denied", Some("not now")));
    let later = "2026-09-12T13:00:00Z";
    let again = approvals::decide_approval(&mut w.s, later, "ap1", "approved", "somebody", None, None);
    assert_eq!(approvals::approval(&w.s, "ap1").unwrap().status, "denied", "a no is not turned into a yes: {again:?}");
    assert_eq!(approvals::approval(&w.s, "ap1").unwrap().decided_at.as_deref(), Some(NOW));
    approvals::decide_approval(&mut w.s, NOW, "ap2", "approved", "AGM", None, None).unwrap();
    approvals::decide_approval(&mut w.s, later, "ap2", "denied", "somebody", None, None);
    assert_eq!(approvals::approval(&w.s, "ap2").unwrap().status, "approved");
    assert_eq!(approvals::decide_approval(&mut w.s, later, "ap2", "revoked", "AGM", None, None).unwrap().status, "revoked");
}
