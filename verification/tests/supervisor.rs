//! Starting the manager, handing work out and what is shown of the world.
use agm_supervisor::assignments;
use agm_supervisor::incidents;
use agm_supervisor::inbox;
use agm_supervisor::maintenance::BotEntry;
use agm_supervisor::refusal::Refusal;
use agm_supervisor::roles;
use agm_supervisor::roles::Role;
use agm_supervisor::rows::Assignment;
use agm_supervisor::store;
use agm_supervisor::store::{Store, StoreError};
use agm_supervisor::supervisor::{
    assign, check_assignable, manager_bot, manager_liveness, manager_started, overlaps, ownership_conflicts, sanitized_state, source_of,
    start_requested, status_json, stop_requested, AssignError, Assigned, BotInfo, Conversation, InFlight, ManagerFacts, MessageRow,
    NotAssignable, NotConfigured, ProjectInfo, RunInfo, RunSeen, Talk, TurnRow, Work,
};

const T: &str = "2026-09-12T10:00:00.000Z";

fn parsed(t: &str) -> serde_json::Value {
    serde_json::from_str(t).unwrap()
}

fn bots() -> Vec<BotEntry> {
    [("boss", true), ("resp", true), ("b1", true), ("b2", true), ("gone", false)]
        .iter()
        .map(|(id, live)| BotEntry { id: id.to_string(), name: id.to_string(), live: *live })
        .collect()
}

fn ready() -> Store {
    let mut s = Store::new();
    store::get_or_init(&mut s, T);
    store::set_env(&mut s, T, "boss", "p1", "/agm");
    roles::get(&mut s, T, Role::Responder);
    roles::set_env(&mut s, T, Role::Responder, "resp", "p1", "/agm/responder");
    s
}

fn silence() -> Talk {
    Talk { conversations: vec![], turns: vec![], messages: vec![], in_flight: vec![] }
}

/// The manager and the responder each have a conversation with one turn; the manager is on its turn.
fn talk() -> Talk {
    let said = |turn: &str, role: &str, words: &str, at: &str| MessageRow {
        turn_id: Some(turn.into()),
        role: role.into(),
        content: words.into(),
        created_at: at.into(),
    };
    Talk {
        conversations: vec![
            Conversation { id: "c-boss".into(), bot_id: "boss".into() },
            Conversation { id: "c-resp".into(), bot_id: "resp".into() },
        ],
        turns: vec![
            TurnRow { id: "t-boss".into(), conversation_id: "c-boss".into() },
            TurnRow { id: "t-resp".into(), conversation_id: "c-resp".into() },
        ],
        messages: vec![
            said("t-boss", "assistant", "on it", "2026-09-12T09:00:02Z"),
            said("t-boss", "user", "and then rest", "2026-09-12T09:00:01Z"),
            said("t-boss", "user", "please fix the build", "2026-09-12T09:00:00Z"),
            said("t-resp", "user", "   ", "2026-09-12T09:00:00Z"),
        ],
        in_flight: vec![InFlight { bot_id: "boss".into(), turn_id: "t-boss".into() }],
    }
}

fn work<'a>(bot: &'a str, crid: &'a str, words: &'a str) -> Work<'a> {
    Work {
        target_bot_id: bot,
        text: words,
        client_request_id: crid,
        source_turn_id: None,
        follow_up_of: None,
        expects_review: true,
        mission: None,
        mission_open: false,
        review_role: None,
        actor: None,
        is_reply: false,
    }
}

fn send(s: &mut Store, id: &str, w: Work<'_>) -> Result<Assigned, AssignError> {
    assign(s, T, &format!("r-{id}"), id, w, &vec![], &talk(), &bots())
}

fn queued(r: Result<Assigned, AssignError>) -> Assignment {
    match r {
        Ok(Assigned::Queued { assignment, .. }) => assignment,
        x => panic!("{x:?}"),
    }
}

#[test]
fn starting_and_stopping_is_written_down_first() {
    let mut s = Store::new();
    assert_eq!(start_requested(&mut s, T, &bots()), Err(NotConfigured));
    let mut s = ready();
    store::set_watchdog(&mut s, T, 4, Some("2999-01-01T00:00:00Z"));
    assert_eq!(start_requested(&mut s, T, &bots()), Ok("boss".to_string()));
    let row = store::get_or_init(&mut s, T);
    assert_eq!((row.desired_running, row.watchdog_attempts, row.watchdog_next_at), (1, 0, None));
    assert_eq!(manager_started(&mut s, T, Some("sess"), None), 1);
    assert_eq!(manager_started(&mut s, T, Some("sess"), Some("slow")), 1, "it is still the same loop");
    let row = store::get_or_init(&mut s, T);
    assert_eq!((row.remote_status.as_str(), row.remote_session_id.as_deref()), ("requested", Some("sess")));
    assert_eq!(row.status_detail.as_deref(), Some("slow"));
    assert_eq!(stop_requested(&mut s, T, &bots()), Ok("boss".to_string()));
    assert_eq!(store::get_or_init(&mut s, T).desired_running, 0);
    store::set_env(&mut s, T, "gone", "p1", "/agm");
    assert_eq!(stop_requested(&mut s, T, &bots()), Err(NotConfigured));
    assert_eq!(manager_bot(&mut s, T, &bots()), None);
    let mut fresh = Store::new();
    assert_eq!(manager_bot(&mut fresh, T, &bots()), None);
    assert!(fresh.supervisor.is_some(), "the row is made on the first look");
    match NotConfigured.refusal() {
        Refusal::Conflict { message, detail } => {
            assert_eq!((message.as_str(), parsed(&detail)["reason"].as_str()), ("supervisor is not set up", Some("not_configured")))
        }
        x => panic!("{x:?}"),
    }
}

#[test]
fn only_an_idle_manager_takes_a_prompt() {
    let run = |state, agent_status, in_flight| manager_liveness(Some(RunSeen { state, agent_status, in_flight }));
    assert_eq!(manager_liveness(None), "stopped");
    assert_eq!(run("starting", "idle", false), "starting");
    assert_eq!(run("exited", "idle", false), "stopped");
    assert_eq!(run("running", "working", false), "busy");
    assert_eq!(run("running", "blocked", false), "busy");
    assert_eq!(run("running", "idle", true), "busy");
    assert_eq!(run("running", "idle", false), "idle");
}

#[test]
fn paths_overlap_by_directory_and_not_by_letters() {
    assert!(overlaps("src/a.rs", "src/a.rs"));
    assert!(overlaps("src/", "src/a.rs"));
    assert!(overlaps("src/a.rs", "src"));
    assert!(!overlaps("src/a.rs", "src/a.rs.bak"));
    assert!(!overlaps("src/sub", "src/subway"));
}

#[test]
fn the_same_request_again_is_the_same_assignment() {
    let mut s = ready();
    let a = queued(send(&mut s, "a1", work("b1", "crid", "fix it")));
    assert_eq!((a.status.as_str(), a.target_bot_id.as_str(), a.expects_review), ("queued", "b1", 1));
    match send(&mut s, "a2", work("b1", "crid", "fix it")) {
        Ok(Assigned::Known(b)) => assert_eq!(b.id, "a1"),
        x => panic!("{x:?}"),
    }
    assert_eq!(s.assignments.len(), 1);
    match send(&mut s, "a3", work("b2", "crid", "fix it")) {
        Err(AssignError::OtherBot { assignment_id, target_bot_id }) => {
            assert_eq!((assignment_id.as_str(), target_bot_id.as_str()), ("a1", "b1"))
        }
        x => panic!("{x:?}"),
    }
    match send(&mut s, "a4", work("b1", "crid", "fix that")) {
        Err(e) => {
            let v = parsed(&e.detail().unwrap());
            assert_eq!((v["reason"].as_str(), v["assignment_id"].as_str()), (Some("text_mismatch"), Some("a1")));
        }
        x => panic!("{x:?}"),
    }
    assert!(matches!(send(&mut s, "a1", work("b1", "other", "fix it")), Err(AssignError::Store(StoreError::IdTaken))));
}

#[test]
fn work_that_cannot_be_handed_out_says_why() {
    let mut s = ready();
    assert!(matches!(send(&mut s, "a", work("b1", " ", "x")), Err(AssignError::EmptyRequestId)));
    assert!(matches!(send(&mut s, "a", work("b1", "c", "\n")), Err(AssignError::EmptyText)));
    assert!(matches!(send(&mut Store::new(), "a", work("b1", "c", "x")), Err(AssignError::NotConfigured)));
    assert!(matches!(send(&mut s, "a", work("boss", "c", "x")), Err(AssignError::ToItself)));
    assert!(matches!(send(&mut s, "a", work("gone", "c", "x")), Err(AssignError::NoSuchBot)));
    assert!(matches!(send(&mut s, "a", Work { is_reply: true, ..work("b1", "c", "x") }), Err(AssignError::ReplyToBot)));
    let closed = Work { mission: Some(("m1", "worker")), ..work("b1", "c", "x") };
    assert!(matches!(send(&mut s, "a", closed), Err(AssignError::MissionRefused)));
    let theirs = Work { source_turn_id: Some("t-boss"), actor: Some(Role::Responder), ..work("b1", "c", "x") };
    assert!(matches!(send(&mut s, "a", theirs), Err(AssignError::NotTheirTurn)));
    assert!(s.assignments.is_empty());
    let mut alone = Store::new();
    store::get_or_init(&mut alone, T);
    store::set_env(&mut alone, T, "boss", "p1", "/agm");
    let from_nobody = Work { actor: Some(Role::Responder), ..work("boss", "c", "x") };
    assert!(matches!(send(&mut alone, "a", from_nobody), Err(AssignError::RoleWithoutBot)));
    assert_eq!(alone.roles.len(), 1, "the row of the responder was looked for, and made");
}

#[test]
fn work_that_is_refused_is_answered_with_the_reason() {
    let told = |e: AssignError| e.refusal(None);
    assert_eq!(told(AssignError::EmptyRequestId), Refusal::Bad("client_request_id must not be empty".into()));
    assert_eq!(told(AssignError::EmptyText), Refusal::Bad("text must not be empty".into()));
    assert_eq!(told(AssignError::ToItself), Refusal::Bad("the supervisor cannot assign work to itself".into()));
    assert_eq!(told(AssignError::ReplyToBot), Refusal::Bad("ack / reply_to only apply to a handover between AGM roles".into()));
    assert_eq!(told(AssignError::NoSuchBot), Refusal::NotFound("bot".into()));
    assert_eq!(told(AssignError::NotTheirTurn), Refusal::Bad("source_turn_id is not a turn of the supervisor".into()));
    assert_eq!(
        AssignError::NotTheirTurn.refusal(Some(Role::Responder)),
        Refusal::Bad("source_turn_id is not a turn of responder".into())
    );
    assert_eq!(told(AssignError::Store(StoreError::IdTaken)), Refusal::Failed("the id is taken".into()));
    let reason = |e: AssignError| match told(e) {
        Refusal::Conflict { message, detail } => (message, parsed(&detail)["reason"].as_str().map(String::from)),
        x => panic!("{x:?}"),
    };
    assert_eq!(reason(AssignError::NotConfigured), ("supervisor is not set up".into(), Some("not_configured".into())));
    assert_eq!(reason(AssignError::RoleWithoutBot), ("that AGM role has no bot".into(), Some("role_not_configured".into())));
    let other = AssignError::OtherBot { assignment_id: "a1".into(), target_bot_id: "b1".into() };
    let v = parsed(&other.detail().unwrap());
    assert_eq!((v["assignment_id"].as_str(), v["target_bot_id"].as_str()), (Some("a1"), Some("b1")));
    assert_eq!(other.message(None), "client_request_id already used for another bot");
    assert_eq!(NotAssignable::NoSuchBot.refusal(), Refusal::NotFound("bot".into()));
    assert_eq!(
        NotAssignable::IsRole.refusal(),
        Refusal::Bad("an AGM role cannot be the target of an assignment; hand over through the role queue".into())
    );
}

#[test]
fn work_for_another_role_goes_through_its_queue() {
    let mut s = ready();
    match send(&mut s, "a", work("resp", "c", "look at this")) {
        Ok(Assigned::Handover { role, from }) => assert_eq!((role, from.as_str()), (Role::Responder, "boss")),
        x => panic!("{x:?}"),
    }
    match send(&mut s, "a", Work { actor: Some(Role::Responder), ..work("boss", "c", "look") }) {
        Ok(Assigned::Handover { role, from }) => assert_eq!((role, from.as_str()), (Role::Patrol, "resp")),
        x => panic!("{x:?}"),
    }
    assert!(s.assignments.is_empty());
    assert_eq!(check_assignable(&mut s, T, "resp", &bots()), Err(NotAssignable::IsRole));
    assert_eq!(check_assignable(&mut s, T, "gone", &bots()), Err(NotAssignable::NoSuchBot));
    assert_eq!(check_assignable(&mut s, T, "b1", &bots()), Ok(()));
}

#[test]
fn nobody_is_quoted_by_guess() {
    let mut s = ready();
    let mut from = |turn, actor| source_of(&mut s, T, &talk(), "boss", turn, "do x", actor).map(|o| (o.source, o.key, o.words));
    let quoted = Some(("manager_turn", Some("t-boss".to_string()), "please fix the build".to_string()));
    assert_eq!(from(None, None), Some(("assignment_text_fallback", None, "do x".to_string())));
    assert_eq!(from(Some("t-boss"), None), quoted);
    assert_eq!(from(Some(" t-boss "), Some(Role::Patrol)), quoted);
    assert_eq!(from(None, Some(Role::Patrol)), quoted, "the turn it is on");
    assert_eq!(from(Some("t-boss"), Some(Role::Responder)), None, "that turn is another's");
    assert_eq!(from(Some("nope"), None), None);
    let unread = Some(("assignment_text_fallback", Some("t-resp".to_string()), "do x".to_string()));
    assert_eq!(from(Some("t-resp"), None), unread, "blank words quote nobody");
    assert!(source_of(&mut s, T, &silence(), "boss", Some("t-boss"), "do x", None).is_none());
    let mut bare = Store::new();
    assert!(source_of(&mut bare, T, &talk(), "boss", None, "do x", None).is_some());
    assert!(bare.roles.is_empty() && bare.supervisor.is_none(), "nothing had to be looked up");
    source_of(&mut bare, T, &talk(), "boss", Some("t-boss"), "do x", None);
    assert_eq!(bare.roles.len(), 1);
}

#[test]
fn overlapping_work_is_reported_and_not_refused() {
    let mut s = ready();
    let own = |v: &[&str]| v.iter().map(|p| p.to_string()).collect::<Vec<_>>();
    assign(&mut s, T, "r1", "a1", work("b1", "c1", "one"), &own(&["src/store", "docs"]), &talk(), &bots()).unwrap();
    match assign(&mut s, T, "r2", "a2", work("b2", "c2", "two"), &own(&["src/store/a.rs", "web"]), &talk(), &bots()) {
        Ok(Assigned::Queued { conflicts, .. }) => {
            assert_eq!(conflicts.len(), 1);
            assert_eq!((conflicts[0].assignment_id.as_str(), conflicts[0].target_bot_id.as_str()), ("a1", "b1"));
            assert_eq!(conflicts[0].paths, vec!["src/store/a.rs"]);
        }
        x => panic!("{x:?}"),
    }
    assert_eq!(s.assignments.len(), 2);
    assert!(ownership_conflicts(&s, &own(&["docs"]), Some("a1")).is_empty());
    assert_eq!(ownership_conflicts(&s, &own(&["docs/x"]), None).len(), 1);
}

#[test]
fn a_follow_up_is_linked_both_ways() {
    let mut s = ready();
    queued(send(&mut s, "a1", work("b1", "c1", "one")));
    let b = queued(send(&mut s, "a2", Work { follow_up_of: Some("a1"), review_role: Some(Role::Patrol), ..work("b1", "c2", "two") }));
    assert_eq!((b.follow_up_of.as_deref(), b.review_role.as_deref()), (Some("a1"), Some("patrol")));
    assert_eq!(assignments::assignment(&s, "a1").unwrap().followup_assignment_id.as_deref(), Some("a2"));
    let m = queued(send(&mut s, "a3", Work { mission: Some(("m1", "worker")), mission_open: true, ..work("b1", "c3", "three") }));
    assert_eq!((m.mission_id.as_deref(), m.mission_role.as_deref()), (Some("m1"), Some("worker")));
}

fn bot_info(id: &str) -> BotInfo {
    BotInfo {
        id: id.into(),
        project_id: "p1".into(),
        name: id.into(),
        kind: "codex".into(),
        model: Some("m".into()),
        effort: None,
        identity: Some("cc0".into()),
        managed_by: "agm".into(),
        parent_bot_id: None,
        cwd: Some("/w".into()),
        queued_turns: 2,
        run: Some(RunInfo {
            id: "run1".into(),
            state: "running".into(),
            agent_status: "idle".into(),
            agent_title: None,
            native_session_id: Some("sess".into()),
            runtime_model: Some("m".into()),
            runtime_effort: None,
            pane_id: Some("%1".into()),
            started_at: T.into(),
        }),
        hook_token: "hunter2".into(),
        args: vec!["--token=hunter2".into()],
        env: vec![("API_KEY".into(), "hunter2".into())],
        persona: Some("hunter2".into()),
    }
}

#[test]
fn the_state_shows_what_is_owed_and_no_secret() {
    let mut s = ready();
    queued(send(&mut s, "a1", work("b1", "c1", "one")));
    inbox::push_inbox(&mut s, T, "e1", "k1", "approval_requested", None, None, None, "{}").unwrap();
    incidents::open_incident(&mut s, T, "i1", "host_disconnected", "local", "warning", "link is down").unwrap();
    let p = vec![ProjectInfo { id: "p1".into(), label: "one".into(), path: "/w".into(), host: "local".into() }];
    let shown = sanitized_state(&mut s, T, &p, &vec!["local".to_string()], &vec![bot_info("boss"), bot_info("b1")]);
    assert!(!shown.contains("hunter2"));
    let v = parsed(&shown);
    assert_eq!(v["open_assignments"][0]["id"], "a1");
    assert_eq!(v["pending_inbox"][0]["event_key"], "k1");
    assert_eq!(v["open_incidents"][0]["kind"], "host_disconnected");
    assert_eq!(v["projects"][0]["path"], "/w");
    assert_eq!(v["bots"].as_array().unwrap().len(), 2);
    let mut bare = Store::new();
    sanitized_state(&mut bare, T, &vec![], &vec![], &vec![]);
    assert!(bare.supervisor.is_some());
    assert_eq!(bare.roles.len(), 1, "the rows of both roles are made on the first look");
}

/// What the state shows of an event with this payload.
fn shown_with(payload: &str) -> String {
    let mut s = ready();
    inbox::push_inbox(&mut s, T, "e1", "k1", "approval_requested", None, None, None, payload).unwrap();
    sanitized_state(&mut s, T, &vec![], &vec![], &vec![])
}

#[test]
fn a_payload_is_shown_as_deep_as_it_can_be_read() {
    for depth in [1, 125, 126, 127] {
        let payload = format!("{}{}", "[".repeat(depth), "]".repeat(depth));
        assert!(shown_with(&payload).contains(&format!("\"payload\":{payload},")), "{depth}");
    }
    let payload = format!("{}{}", "[".repeat(128), "]".repeat(128));
    let v = parsed(&shown_with(&payload));
    assert_eq!(v["pending_inbox"][0]["payload"].to_string(), "{}", "deeper than that it is not read");
    assert_eq!(v["pending_inbox"][0]["event_key"], "k1");
}

#[test]
fn a_payload_is_read_and_written_once() {
    for n in ["0.1", "2.638344616030823e-256", "5.298e-270", "1.7976931348623157e308", "31.245270191439438", "1e5"] {
        let payload = format!("{{\"b\": {n}, \"a\": [ ]}}");
        let once = parsed(&payload).to_string();
        assert!(once.starts_with("{\"a\":[],\"b\":"), "{once}");
        assert!(shown_with(&payload).contains(&format!("\"payload\":{once},")), "{n}");
    }
}

#[test]
fn a_payload_that_cannot_be_read_is_shown_as_an_empty_object() {
    for bad in ["", "no", "{\"x\":", "{} {}"] {
        assert_eq!(parsed(&shown_with(bad))["pending_inbox"][0]["payload"].to_string(), "{}", "{bad}");
    }
    for good in ["null", "3", "\"words\"", "{\"x\":[1]}"] {
        assert_eq!(parsed(&shown_with(good))["pending_inbox"][0]["payload"].to_string(), good);
    }
    let mut s = ready();
    incidents::open_incident(&mut s, T, "i1", "host_disconnected", "local", "warning", "link is down").unwrap();
    assert_eq!(parsed(&s.incidents[0].to_json())["detail"].to_string(), "{}");
    s.incidents[0].detail_json = "{\"error\" : \"link is down\"}".to_string();
    assert_eq!(parsed(&s.incidents[0].to_json())["detail"].to_string(), "{\"error\":\"link is down\"}");
}

#[test]
fn work_is_on_record_with_the_role_that_decides_on_it() {
    for (role, name) in [(None, None), (Some(Role::Patrol), Some("patrol")), (Some(Role::Responder), Some("responder"))] {
        let mut s = ready();
        let a = queued(send(&mut s, "a1", Work { review_role: role, ..work("b1", "c1", "one") }));
        assert_eq!(a.review_role.as_deref(), name);
        assert_eq!(s.assignments[0].review_role.as_deref(), name);
    }
}

#[test]
fn a_state_that_sticks_comes_before_what_the_run_looks_like() {
    let mut s = ready();
    let facts = |bot_id| ManagerFacts { bot_id, project_id: Some("p1"), liveness: "idle", remote: "{\"x\":1}", responder: "{}", last_deploy: "null" };
    let v = parsed(&status_json(&mut s, T, facts(Some("boss"))));
    assert_eq!((v["status"].as_str(), v["configured"].as_bool(), v["pending_count"].as_u64()), (Some("idle"), Some(true), Some(0)));
    assert_eq!(v["remote"]["x"], 1);
    store::set_status(&mut s, T, "waiting_quota", Some("both accounts are out"));
    queued(send(&mut s, "a1", work("b1", "c1", "one")));
    let v = parsed(&status_json(&mut s, T, facts(Some("boss"))));
    assert_eq!((v["status"].as_str(), v["pending_count"].as_u64()), (Some("waiting_quota"), Some(1)));
    assert_eq!(v["assignments"][0]["id"], "a1");
    assert_eq!(parsed(&status_json(&mut s, T, facts(None)))["status"], "not_configured");
}
