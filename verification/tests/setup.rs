//! Setting the manager up.
use agm_supervisor::config::{adopt, write_persona, BotCfg, ProjectCfg};
use agm_supervisor::refusal::Refusal;
use agm_supervisor::setup;
use agm_supervisor::setup::{SetupError, HANDOFF};
use agm_supervisor::store;
use agm_supervisor::store::Store;

const T: &str = "2026-09-12T10:00:00.000Z";

/// A persona document: a header for people, a rule, and the text of the role.
const PERSONA_DOC: &str = "# AGM 人格\n\n> 以下正文供 AGM bot 使用；修改前先看這裡。\n\n---\n\n你是 AGM，總管。\n候選順序固定為 cc0/fable/low，再來是 opus。\n\n---\n\n後面的分隔線屬於正文。\n";

/// The start of the command line tool.
const AGM_CLI: &str = "sub = parser.add_subparsers()\nsub.add_parser(\"assignments\", help=\"list\")\n";

fn parsed(t: &str) -> serde_json::Value {
    serde_json::from_str(t).unwrap()
}

#[test]
fn the_persona_body_drops_the_human_preamble() {
    let body = setup::persona_body(PERSONA_DOC);
    assert!(body.starts_with("你是 AGM"), "persona body starts at the role line: {body:?}");
    assert!(!body.contains("以下正文供 AGM bot"), "the note to the human reader is not part of the persona");
    assert!(body.contains("cc0/fable/low"), "the fixed candidate order survives the split");
    assert!(body.ends_with("後面的分隔線屬於正文。"), "only the first rule splits");
    assert_eq!(setup::persona_body("  沒有分隔線 \n"), "沒有分隔線");
}

#[test]
fn candidates_stay_aliases_so_a_model_release_cannot_strand_the_supervisor() {
    assert_eq!(setup::model_arg("fable"), "fable");
    assert_eq!(setup::model_arg("opus"), "opus");
    assert_eq!(setup::other_candidate("fable"), "opus");
    assert_eq!(setup::other_candidate("opus"), "fable");
}

#[test]
fn the_runtime_file_names_the_manager_and_carries_no_secret() {
    let text = setup::runtime_json(7788, "botULID", "/data");
    let v = parsed(&text);
    assert_eq!(v["daemon_url"], "http://127.0.0.1:7788");
    assert_eq!(v["manager_bot_id"], "botULID");
    assert_eq!(v["bot_id"], "botULID", "the older key stays, so either half can upgrade first");
    assert!(!text.to_lowercase().contains("token"), "no token, and no field that could hold one: {text}");
}

#[test]
fn the_cli_is_compiled_in_not_read_off_the_build_machine() {
    let (files, deployed) = setup::deploy_files("/data", "NOTES.md", 7788, "b1", "persona", AGM_CLI);
    let cli = files.iter().find(|f| f.path == "/data/supervisor/AGM/bin/agm").unwrap();
    assert!(cli.content.contains("add_parser(\"assignments\""), "the deployed CLI is the one that was handed in");
    assert!(cli.executable);
    assert_eq!(deployed.cwd, "/data/supervisor/AGM");
}

#[test]
fn the_directory_holds_notes_persona_settings_and_handoff() {
    let (files, _) = setup::deploy_files("/data", "NOTES.md", 7788, "b1", "人格", "cli");
    let names: Vec<&str> = files.iter().map(|f| f.path.as_str()).collect();
    assert_eq!(
        names,
        [
            "/data/supervisor/AGM/NOTES.md",
            "/data/supervisor/AGM/persona.md",
            "/data/supervisor/AGM/runtime.json",
            "/data/supervisor/AGM/handoff.md",
            "/data/supervisor/AGM/bin/agm",
        ]
    );
    assert!(files[0].content.contains("7788") && files[0].content.contains("b1"));
    assert_eq!(files[1].content, "人格");
    assert!(files[2].content.contains("\n  \"bot_id\": \"b1\""), "laid out for people: {}", files[2].content);
    assert_eq!(parsed(&files[2].content)["data_dir"], "/data");
    assert_eq!(files[3].content, HANDOFF);
    assert_eq!(files.iter().map(|f| f.keep).collect::<Vec<_>>(), [false, false, false, true, false], "only the handoff is the bot's own");
}

fn bot(id: Option<&str>, name: &str) -> BotCfg {
    BotCfg {
        id: id.map(String::from),
        name: name.to_string(),
        kind: "codex".to_string(),
        model: None,
        effort: None,
        fast: false,
        persona: None,
        args: vec![],
        autostart: true,
        inject_hooks: false,
        auto_approve: false,
        identity: None,
        env: vec![("A".to_string(), "1".to_string())],
        herdr_session: None,
    }
}

fn project(id: &str, path: &str, bots: Vec<BotCfg>) -> ProjectCfg {
    ProjectCfg { id: Some(id.to_string()), path: path.to_string(), label: id.to_string(), host: "local".to_string(), bots }
}

fn set_up(s: &mut Store, projects: &mut Vec<ProjectCfg>, known: bool) -> Result<setup::Environment, SetupError> {
    setup::ensure_env(s, T, projects, "cli", "/agm", known, None, "內嵌", "p-new", "b-new")
}

#[test]
fn setting_up_creates_one_project_with_one_bot_and_again_changes_nothing() {
    let mut s = Store::new();
    let mut projects = vec![project("p1", "/work", vec![bot(Some("w"), "worker")])];
    let e = set_up(&mut s, &mut projects, true).unwrap();
    assert_eq!((e.project_id.as_str(), e.bot_id.as_str(), e.persona.as_str(), e.seeded), ("p-new", "b-new", "內嵌", true));
    assert_eq!(projects.len(), 2);
    let made = &projects[1].bots[0];
    assert_eq!((made.name.as_str(), made.kind.as_str(), made.autostart, made.inject_hooks), ("AGM", "cli", false, true));
    assert_eq!(made.args, ["--remote-control", "AGM"]);
    assert_eq!((made.model.as_deref(), made.effort.as_deref(), made.identity.as_deref()), (Some("fable"), Some("low"), Some("cc0")));
    assert_eq!(projects[0].bots[0].name, "worker", "nobody else is touched");
    store::set_env(&mut s, T, &e.bot_id, &e.project_id, "/agm");
    let again = set_up(&mut s, &mut projects, true).unwrap();
    assert_eq!((again.bot_id.as_str(), again.seeded), ("b-new", false));
    assert_eq!(projects.len(), 2);
    assert_eq!(projects[1].bots.len(), 1);
}

#[test]
fn a_missing_account_is_not_guessed_and_a_taken_name_is_not_overwritten() {
    let mut s = Store::new();
    let mut projects = vec![];
    match set_up(&mut s, &mut projects, false) {
        Err(e) => {
            let v = parsed(&e.detail());
            assert_eq!((v["reason"].as_str(), v["identity"].as_str()), (Some("identity_missing"), Some("cc0")));
            match e.refusal() {
                Refusal::Conflict { message, detail } => {
                    assert_eq!(message, "supervisor identity is not configured on this host");
                    assert_eq!(detail, e.detail());
                }
                x => panic!("{x:?}"),
            }
        }
        x => panic!("{x:?}"),
    }
    assert!(projects.is_empty());
    let mut projects = vec![project("p1", "/agm", vec![bot(Some("other"), "AGM")])];
    assert!(matches!(set_up(&mut s, &mut projects, true), Err(SetupError::NameTaken)));
    let v = parsed(&SetupError::NameTaken.detail());
    assert_eq!((v["reason"].as_str(), v["name"].as_str()), (Some("name_taken"), Some("AGM")));
    assert_eq!(projects[0].bots.len(), 1);
    assert_eq!(projects[0].bots[0].id.as_deref(), Some("other"));
}

#[test]
fn a_persona_is_written_to_the_bot_that_has_the_id() {
    let mut projects = vec![project("p1", "/a", vec![bot(Some("b1"), "x"), bot(None, "y")])];
    assert!(write_persona(&mut projects, "b1", "新"));
    assert_eq!(projects[0].bots[0].persona.as_deref(), Some("新"));
    assert_eq!(projects[0].bots[1].persona, None);
    assert!(!write_persona(&mut projects, "nope", "新"));
    assert_eq!(adopt(&mut projects, "b1", "missing", "/x"), None, "there is nowhere to move it to");
}

#[test]
fn a_custom_persona_of_the_bot_comes_before_the_embedded_one_only_once() {
    let mut s = Store::new();
    let (text, seeded) = setup::effective_persona(&mut s, T, Some("自己的"), "內嵌");
    assert_eq!((text.as_str(), seeded), ("自己的", true));
    let (text, seeded) = setup::effective_persona(&mut s, T, Some("別的"), "內嵌 2");
    assert_eq!((text.as_str(), seeded), ("自己的", false));
    assert_eq!(store::get_or_init(&mut s, T).persona_source.as_deref(), Some("legacy_bot"));
}
