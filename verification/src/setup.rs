//! Setting the manager up: a directory, a project and a bot of its own.
//!
//! The directory is no source tree: a manager whose working directory is one starts editing code.
use crate::config;
use crate::config::{Placement, PlacementView, ProjectCfg};
use crate::json;
use crate::json::Field;
use crate::persona;
use crate::refusal::{Refusal, RefusalView};
use crate::rows::SupervisorView;
use crate::store;
use crate::store::{Store, StoreView};
use crate::table;
use crate::text;
use vstd::prelude::*;

verus! {

pub const BOT_NAME: &'static str = "AGM";

pub const REMOTE_NAME: &'static str = "AGM";

/// What goes on the command line for a candidate: the alias, which moves with the CLI.
pub open spec fn alias_of(candidate: Seq<char>) -> Seq<char> {
    if candidate == "opus"@ {
        "opus"@
    } else {
        "fable"@
    }
}

pub fn model_arg(candidate: &str) -> (r: &'static str)
    ensures
        r@ == alias_of(candidate@),
{
    if text::same(candidate, "opus") {
        "opus"
    } else {
        "fable"
    }
}

/// The candidate that is not this one.
pub open spec fn other_of(candidate: Seq<char>) -> Seq<char> {
    if candidate == "fable"@ {
        "opus"@
    } else {
        "fable"@
    }
}

pub fn other_candidate(candidate: &str) -> (r: &'static str)
    ensures
        r@ == other_of(candidate@),
{
    if text::same(candidate, "fable") {
        "opus"
    } else {
        "fable"
    }
}

// ---------------------------------------------------------------- paths

/// A relative path inside a directory.
pub open spec fn inside(dir: Seq<char>, part: Seq<char>) -> Seq<char> {
    if dir.len() == 0 {
        part
    } else if dir.last() == '/' {
        dir + part
    } else {
        dir + "/"@ + part
    }
}

pub fn join(dir: &str, part: &str) -> (r: String)
    ensures
        r@ == inside(dir@, part@),
{
    let n = dir.unicode_len();
    if n == 0 {
        return part.to_owned();
    }
    if dir.get_char(n - 1) == '/' {
        text::joined(dir, part)
    } else {
        text::joined(text::joined(dir, "/").as_str(), part)
    }
}

/// The directory of a role, under the data directory.
pub open spec fn role_dir(data_dir: Seq<char>, name: Seq<char>) -> Seq<char> {
    inside(inside(data_dir, "supervisor"@), name)
}

/// The directory of the manager.
pub fn agm_dir(data_dir: &str) -> (r: String)
    ensures
        r@ == role_dir(data_dir@, "AGM"@),
{
    join(join(data_dir, "supervisor").as_str(), BOT_NAME)
}

// ---------------------------------------------------------------- persona

/// What follows the first rule of a document; the header above it is for people who read the document.
pub open spec fn body_of(doc: Seq<char>) -> Seq<char> {
    match text::found(doc, "\n---\n"@) {
        Some(i) => text::trimmed(doc.skip(i + 5)),
        None => text::trimmed(doc),
    }
}

/// The embedded persona: the seed of a first install and nothing more.
pub fn persona_body(doc: &str) -> (r: String)
    ensures
        r@ == body_of(doc@),
{
    proof {
        reveal_strlit("\n---\n");
        assert("\n---\n"@.len() == 5);
    }
    let n = doc.unicode_len();
    match text::find(doc, "\n---\n") {
        Some(i) => {
            let rest = doc.substring_char(i + 5, n);
            assert(rest@ =~= doc@.skip(i + 5));
            text::trim(rest).to_owned()
        },
        None => text::trim(doc).to_owned(),
    }
}

/// The persona that a seed is taken from: what the bot runs on already, where it has one.
pub open spec fn seed_of(legacy: Option<Seq<char>>) -> Option<Seq<char>> {
    match legacy {
        Some(t) => if text::is_blank(t) {
            None
        } else {
            Some(t)
        },
        None => None,
    }
}

/// A supervisor row with a persona in it, seeded if there was none.
pub open spec fn seeded(r: SupervisorView, legacy: Option<Seq<char>>, embedded: Seq<char>, now: Seq<char>) -> SupervisorView {
    if store::unset(r.persona_text) {
        let (words, source) = match seed_of(legacy) {
            Some(t) => (t, "legacy_bot"@),
            None => (embedded, "embedded"@),
        };
        SupervisorView {
            persona_text: Some(words),
            persona_hash: Some(persona::hash_text(words)),
            persona_source: Some(source),
            persona_updated_at: Some(now),
            persona_seed_hash: Some(persona::hash_text(embedded)),
            persona_version: table::bumped(r.persona_version),
            updated_at: now,
            ..r
        }
    } else {
        r
    }
}

/// The row as it is found, or as it is made.
pub open spec fn row_of(s: StoreView, now: Seq<char>) -> SupervisorView {
    match s.supervisor {
        Some(r) => r,
        None => store::fresh_supervisor(now),
    }
}

/// The text that a persona column stands for: what is stored, or the embedded text.
pub open spec fn running_on(stored: Option<Seq<char>>, embedded: Seq<char>) -> Seq<char> {
    if store::unset(stored) {
        embedded
    } else {
        stored->0
    }
}

/// What taking the persona that the manager runs on answers and leaves in the store.
pub open spec fn taking_persona(
    s: StoreView,
    now: Seq<char>,
    legacy: Option<Seq<char>>,
    embedded: Seq<char>,
    words: Seq<char>,
    fresh: bool,
    after: StoreView,
) -> bool {
    let was = row_of(s, now);
    let row = seeded(was, legacy, embedded, now);
    &&& after == (StoreView { supervisor: Some(row), ..s })
    &&& words == running_on(row.persona_text, embedded)
    &&& fresh == store::unset(was.persona_text)
}

/// The persona that the manager runs on: what is stored, and otherwise a seed. `legacy` is the persona
/// of its bot. True is that this call seeded it.
pub fn effective_persona(s: &mut Store, now: &str, legacy: Option<&str>, embedded: &str) -> (r: (String, bool))
    ensures
        taking_persona(old(s)@, now@, text::arg(legacy), embedded@, r.0@, r.1, final(s)@),
{
    let row = store::get_or_init(s, now);
    let from = match legacy {
        Some(t) => if text::blank(t) {
            None
        } else {
            Some(t)
        },
        None => None,
    };
    let fresh = match from {
        Some(t) => store::seed_persona_from(s, now, t, "legacy_bot", embedded),
        None => store::seed_persona_if_empty(s, now, embedded),
    };
    let row = store::get_or_init(s, now);
    let words = match row.persona_text {
        Some(t) => if text::same(t.as_str(), "") {
            embedded.to_owned()
        } else {
            t
        },
        None => embedded.to_owned(),
    };
    (words, fresh)
}

// ---------------------------------------------------------------- files

/// The notes up to the port of the daemon.
pub const MD_TITLE: &'static str = "# AGM — agents-manager 總管

你是 AGM。角色前導詞由 daemon 以 persona 注入（同目錄 `persona.md` 是同一份的可讀副本，
不要再把它整份貼進對話）。

## 執行期
- AG Man daemon：`http://127.0.0.1:";

/// The notes between the port and the id of the bot.
pub const MD_BOT: &'static str = "`
- 你自己的 bot id：`";

/// The notes between the id of the bot and its directory.
pub const MD_DIR: &'static str = "`
- 工作目錄：`";

/// The notes behind the directory.
pub const MD_REST: &'static str = "`
- 執行期設定：`runtime.json`（沒有 token；CLI 自己去 `GET /api/session` 拿）
- 管理摘要：`handoff.md`（可重建的副本，權威在資料庫 `GET /api/supervisor/handoff`）

## 可用工具
- `bin/agm`：結構化 JSON CLI，是你操作 AG Man 的入口。先跑 `bin/agm --help` 看目前**實際**有哪些子命令。
- 沒有出現在 `--help` 裡的子命令就是還沒實作，不要假設它存在，也不要自己拼 curl 繞過去。

## 恢復流程
接班或重啟後，依序：讀 `handoff.md` → `bin/agm assignments` 未結案 → `bin/agm inbox` 待處理
→ 再查即時狀態。舊的 pending 不等於還沒送出，一律先對帳再決定。

## 邊界
- 這個目錄不是任何專案的原始碼，不要在這裡改程式。
- 不要把 token、登入秘密或完整環境變數寫進任何檔案或回覆。
- Remote Control 名稱是 `AGM`，由啟動環境建立；不要自己開關。
";

/// The notes in the manager's directory.
pub open spec fn notes(dir: Seq<char>, bot_id: Seq<char>, port: u16) -> Seq<char> {
    MD_TITLE@ + text::digits(port as nat) + MD_BOT@ + bot_id + MD_DIR@ + dir + MD_REST@
}

/// What the manager finds in its directory about itself.
pub fn claude_md(dir: &str, bot_id: &str, port: u16) -> (r: String)
    ensures
        r@ == notes(dir@, bot_id@, port),
{
    let mut t = text::joined(MD_TITLE, text::number(port as u64).as_str());
    t = text::joined(t.as_str(), MD_BOT);
    t = text::joined(t.as_str(), bot_id);
    t = text::joined(t.as_str(), MD_DIR);
    t = text::joined(t.as_str(), dir);
    text::joined(t.as_str(), MD_REST)
}

/// Where the daemon answers.
pub open spec fn daemon_url(port: u16) -> Seq<char> {
    "http://127.0.0.1:"@ + text::digits(port as nat)
}

pub fn url_of(port: u16) -> (r: String)
    ensures
        r@ == daemon_url(port),
{
    text::joined("http://127.0.0.1:", text::number(port as u64).as_str())
}

/// The runtime settings of the command line tool. There is no token among them: the tool asks the
/// daemon for one.
pub open spec fn runtime_members(port: u16, bot_id: Seq<char>, data_dir: Seq<char>) -> Seq<(Seq<char>, json::FieldView)> {
    seq![
        ("daemon_url"@, json::FieldView::Str(daemon_url(port))),
        ("manager_bot_id"@, json::FieldView::Str(bot_id)),
        ("bot_id"@, json::FieldView::Str(bot_id)),
        ("data_dir"@, json::FieldView::Str(data_dir)),
        ("supervisor_id"@, json::FieldView::Str("AGM"@)),
        ("remote_name"@, json::FieldView::Str("AGM"@)),
    ]
}

pub fn runtime_json(port: u16, bot_id: &str, data_dir: &str) -> (r: String)
    ensures
        r@ == json::json_object(runtime_members(port, bot_id@, data_dir@)),
{
    let url = url_of(port);
    let fields = [
        ("daemon_url", Field::Str(url.as_str())),
        ("manager_bot_id", Field::Str(bot_id)),
        ("bot_id", Field::Str(bot_id)),
        ("data_dir", Field::Str(data_dir)),
        ("supervisor_id", Field::Str(store::SUPERVISOR_ID)),
        ("remote_name", Field::Str(REMOTE_NAME)),
    ];
    assert(json::members(fields@) =~= runtime_members(port, bot_id@, data_dir@));
    json::object(&fields)
}

/// A file that is to be written.
#[derive(Debug)]
pub struct FileOut {
    pub path: String,
    pub content: String,
    /// A file that is there already is left alone.
    pub keep: bool,
    pub executable: bool,
}

/// What a `FileOut` holds.
#[verifier::ext_equal]
pub struct FileOutView {
    pub path: Seq<char>,
    pub content: Seq<char>,
    pub keep: bool,
    pub executable: bool,
}

impl View for FileOut {
    type V = FileOutView;

    open spec fn view(&self) -> FileOutView {
        FileOutView { path: self.path@, content: self.content@, keep: self.keep, executable: self.executable }
    }
}

pub open spec fn file_view(dir: Seq<char>, name: Seq<char>, content: Seq<char>, keep: bool, executable: bool) -> FileOutView {
    FileOutView { path: inside(dir, name), content, keep, executable }
}

/// The files of a role. All are written anew each time, but for the handoff notes, which belong to the
/// bot once they exist.
pub open spec fn role_files_of(
    dir: Seq<char>,
    notes_name: Seq<char>,
    notes: Seq<char>,
    persona: Seq<char>,
    runtime: Seq<char>,
    handoff: Seq<char>,
    cli: Seq<char>,
) -> Seq<FileOutView> {
    seq![
        file_view(dir, notes_name, notes, false, false),
        file_view(dir, "persona.md"@, persona, false, false),
        file_view(dir, "runtime.json"@, json::json_pretty(runtime), false, false),
        file_view(dir, "handoff.md"@, handoff, true, false),
        file_view(dir, "bin/agm"@, cli, false, true),
    ]
}

fn file(dir: &str, name: &str, content: &str, keep: bool, executable: bool) -> (r: FileOut)
    ensures
        r@ == file_view(dir@, name@, content@, keep, executable),
{
    FileOut { path: join(dir, name), content: content.to_owned(), keep, executable }
}

/// `notes_name` is the file that the command line program reads its notes from.
pub fn role_files(
    dir: &str,
    notes_name: &str,
    notes: &str,
    persona: &str,
    runtime: &str,
    handoff: &str,
    cli: &str,
) -> (r: Vec<FileOut>)
    ensures
        table::views(r@) == role_files_of(dir@, notes_name@, notes@, persona@, runtime@, handoff@, cli@),
{
    let mut out: Vec<FileOut> = Vec::new();
    out.push(file(dir, notes_name, notes, false, false));
    out.push(file(dir, "persona.md", persona, false, false));
    out.push(file(dir, "runtime.json", json::pretty(runtime).as_str(), false, false));
    out.push(file(dir, "handoff.md", handoff, true, false));
    out.push(file(dir, "bin/agm", cli, false, true));
    assert(table::views(out@) =~= role_files_of(dir@, notes_name@, notes@, persona@, runtime@, handoff@, cli@));
    out
}

/// The handoff notes of a manager that has written none.
pub const HANDOFF: &'static str = "# AGM 管理摘要

（尚未寫入。權威紀錄在 AG Man 資料庫。）
";

/// What was written.
#[derive(Debug, Clone)]
pub struct Deployed {
    pub cwd: String,
    pub agm_cli: String,
}

/// The files of the manager's directory. `persona` is the stored text: the readable copy must not
/// disagree with what the manager runs on.
pub fn deploy_files(data_dir: &str, notes_name: &str, port: u16, bot_id: &str, persona: &str, cli: &str) -> (r: (
    Vec<FileOut>,
    Deployed,
))
    ensures
        ({
            let dir = role_dir(data_dir@, "AGM"@);
            &&& table::views(r.0@) == role_files_of(
                dir,
                notes_name@,
                notes(dir, bot_id@, port),
                persona@,
                json::json_object(runtime_members(port, bot_id@, data_dir@)),
                HANDOFF@,
                cli@,
            )
            &&& r.1.cwd@ == dir
            &&& r.1.agm_cli@ == "deployed"@
        }),
{
    let dir = agm_dir(data_dir);
    let md = claude_md(dir.as_str(), bot_id, port);
    let runtime = runtime_json(port, bot_id, data_dir);
    let files = role_files(dir.as_str(), notes_name, md.as_str(), persona, runtime.as_str(), HANDOFF, cli);
    (files, Deployed { cwd: dir, agm_cli: "deployed".to_owned() })
}

// ---------------------------------------------------------------- the environment

/// Why the manager cannot be set up.
#[derive(Debug)]
pub enum SetupError {
    /// The account it is to run under is not there. None is guessed.
    IdentityMissing { identity: String },
    /// A different bot has the name in its project.
    NameTaken,
}

/// The detail of a refusal to set the manager up.
pub open spec fn refusal_members(e: SetupError) -> Seq<(Seq<char>, json::FieldView)> {
    match e {
        SetupError::IdentityMissing { identity } => seq![
            ("reason"@, json::FieldView::Str("identity_missing"@)),
            ("identity"@, json::FieldView::Str(identity@)),
        ],
        SetupError::NameTaken => seq![
            ("reason"@, json::FieldView::Str("name_taken"@)),
            ("name"@, json::FieldView::Str("AGM"@)),
        ],
    }
}

/// The words of a refusal to set the manager up.
pub open spec fn refusal_words(e: SetupError) -> Seq<char> {
    match e {
        SetupError::IdentityMissing { .. } => "supervisor identity is not configured on this host"@,
        SetupError::NameTaken => "a different bot is already called AGM in the supervisor project"@,
    }
}

impl SetupError {
    /// The detail of the refusal as a JSON text.
    pub fn detail(&self) -> (r: String)
        ensures
            r@ == json::json_object(refusal_members(*self)),
    {
        match self {
            SetupError::IdentityMissing { identity } => {
                let fields = [("reason", Field::Str("identity_missing")), ("identity", Field::Str(identity.as_str()))];
                assert(json::members(fields@) =~= refusal_members(*self));
                json::object(&fields)
            },
            SetupError::NameTaken => {
                let fields = [("reason", Field::Str("name_taken")), ("name", Field::Str("AGM"))];
                assert(json::members(fields@) =~= refusal_members(*self));
                json::object(&fields)
            },
        }
    }

    /// What the caller is told.
    pub fn refusal(&self) -> (r: Refusal)
        ensures
            r@ == (RefusalView::Conflict {
                message: refusal_words(*self),
                detail: json::json_object(refusal_members(*self)),
            }),
    {
        let message = match self {
            SetupError::IdentityMissing { .. } => "supervisor identity is not configured on this host",
            SetupError::NameTaken => "a different bot is already called AGM in the supervisor project",
        };
        Refusal::Conflict { message: message.to_owned(), detail: self.detail() }
    }
}

/// The environment of a role.
#[derive(Debug)]
pub struct Environment {
    pub project_id: String,
    pub bot_id: String,
    pub persona: String,
    /// The persona was seeded just now.
    pub seeded: bool,
}

/// Where the manager goes.
pub open spec fn manager_placement(
    r: SupervisorView,
    kind: Seq<char>,
    path: Seq<char>,
    persona: Seq<char>,
    fresh_project: Seq<char>,
    fresh_bot: Seq<char>,
) -> PlacementView {
    PlacementView {
        name: "AGM"@,
        kind,
        first_project: r.project_id,
        second_project: None,
        path,
        known_bot: r.bot_id,
        fresh_project,
        fresh_bot,
        model: alias_of(r.active_model),
        effort: r.effort,
        identity: r.identity,
        persona,
        remote_name: Some("AGM"@),
    }
}

/// What setting the manager up comes to.
#[verifier::ext_equal]
pub enum SetUp {
    IdentityMissing { identity: Seq<char> },
    NameTaken,
    Done { project_id: Seq<char>, bot_id: Seq<char>, persona: Seq<char>, seeded: bool },
}

/// What setting the manager up answers and leaves behind.
pub open spec fn setting_up(
    s: StoreView,
    now: Seq<char>,
    before: Seq<config::ProjectCfgView>,
    kind: Seq<char>,
    path: Seq<char>,
    identity_known: bool,
    legacy: Option<Seq<char>>,
    embedded: Seq<char>,
    fresh_project: Seq<char>,
    fresh_bot: Seq<char>,
    res: SetUp,
    projects: Seq<config::ProjectCfgView>,
    after: StoreView,
) -> bool {
    let was = row_of(s, now);
    let row = seeded(was, legacy, embedded, now);
    let words = running_on(row.persona_text, embedded);
    let p = manager_placement(was, kind, path, words, fresh_project, fresh_bot);
    let t = config::target(before, p);
    if !identity_known {
        &&& res == SetUp::IdentityMissing { identity: was.identity }
        &&& after == (StoreView { supervisor: Some(was), ..s })
        &&& projects == before
    } else {
        &&& after == (StoreView { supervisor: Some(row), ..s })
        &&& if config::name_is_taken(t, p) {
            res is NameTaken && projects == before
        } else {
            &&& projects == config::placed(before, p)
            &&& res == SetUp::Done {
                project_id: config::id_or(t.id, fresh_project),
                bot_id: config::placed_bot(t, p),
                persona: words,
                seeded: store::unset(was.persona_text),
            }
        }
    }
}

/// Create, or find, the project and the bot of the manager. Nothing is started. The ids on record come
/// before names and directories, and the stored persona comes before the embedded one.
///
/// `kind` is the command line program that it runs, `path` is the real path of its directory, and
/// `identity_known` is that its account is there. The ids are written down with `store::set_env` once
/// the files are.
pub fn ensure_env(
    s: &mut Store,
    now: &str,
    projects: &mut Vec<ProjectCfg>,
    kind: &str,
    path: &str,
    identity_known: bool,
    legacy_persona: Option<&str>,
    embedded: &str,
    fresh_project: &str,
    fresh_bot: &str,
) -> (res: Result<Environment, SetupError>)
    ensures
        setting_up(
            old(s)@,
            now@,
            table::views(old(projects)@),
            kind@,
            path@,
            identity_known,
            text::arg(legacy_persona),
            embedded@,
            fresh_project@,
            fresh_bot@,
            match res {
                Ok(e) => SetUp::Done {
                    project_id: e.project_id@,
                    bot_id: e.bot_id@,
                    persona: e.persona@,
                    seeded: e.seeded,
                },
                Err(SetupError::IdentityMissing { identity }) => SetUp::IdentityMissing { identity: identity@ },
                Err(SetupError::NameTaken) => SetUp::NameTaken,
            },
            table::views(final(projects)@),
            final(s)@,
        ),
{
    let row = store::get_or_init(s, now);
    if !identity_known {
        return Err(SetupError::IdentityMissing { identity: row.identity });
    }
    let (persona, fresh) = effective_persona(s, now, legacy_persona, embedded);
    let p = Placement {
        name: BOT_NAME,
        kind,
        first_project: text::borrowed(&row.project_id),
        second_project: None,
        path,
        known_bot: text::borrowed(&row.bot_id),
        fresh_project,
        fresh_bot,
        model: model_arg(row.active_model.as_str()),
        effort: row.effort.as_str(),
        identity: row.identity.as_str(),
        persona: persona.as_str(),
        remote_name: Some(REMOTE_NAME),
    };
    match config::place(projects, p) {
        Ok((project_id, bot_id)) => Ok(Environment { project_id, bot_id, persona, seeded: fresh }),
        Err(_) => Err(SetupError::NameTaken),
    }
}

// ---------------------------------------------------------------- laws

/// A stored persona is never overwritten by a seed: an older binary that sets the manager up again
/// leaves what was put there since.
pub proof fn a_stored_persona_is_kept(r: SupervisorView, legacy: Option<Seq<char>>, embedded: Seq<char>, now: Seq<char>)
    requires
        !store::unset(r.persona_text),
    ensures
        seeded(r, legacy, embedded, now) == r,
        running_on(r.persona_text, embedded) == r.persona_text->0,
{
}

/// Seeding happens once: after it there is a persona, and seeding again changes nothing.
pub proof fn seeding_happens_once(
    r: SupervisorView,
    legacy: Option<Seq<char>>,
    embedded: Seq<char>,
    now: Seq<char>,
    legacy2: Option<Seq<char>>,
    embedded2: Seq<char>,
    later: Seq<char>,
)
    requires
        embedded != ""@,
    ensures
        ({
            let once = seeded(r, legacy, embedded, now);
            seeded(once, legacy2, embedded2, later) == once
        }),
{
    reveal_strlit("");
    assert(""@ =~= Seq::<char>::empty());
    if seed_of(legacy) is Some {
        assert(text::is_blank(""@));
    }
}

/// The two candidates are each other's other, and stay aliases.
pub proof fn candidates_are_two(candidate: Seq<char>)
    ensures
        alias_of(candidate) == "fable"@ || alias_of(candidate) == "opus"@,
        alias_of("fable"@) == "fable"@,
        alias_of("opus"@) == "opus"@,
{
    reveal_strlit("fable");
    reveal_strlit("opus");
    assert("fable"@.len() == 5 && "opus"@.len() == 4);
}

/// A part goes behind the directory with exactly one slash between them; without a directory it stands
/// alone.
pub proof fn a_part_goes_behind_its_directory(dir: Seq<char>, part: Seq<char>)
    ensures
        dir.len() == 0 ==> inside(dir, part) == part,
        dir.len() > 0 && dir.last() == '/' ==> inside(dir, part) == dir + part,
        dir.len() > 0 && dir.last() != '/' ==> {
            &&& inside(dir, part).len() == dir.len() + 1 + part.len()
            &&& inside(dir, part).take(dir.len() as int) == dir
            &&& inside(dir, part)[dir.len() as int] == '/'
            &&& inside(dir, part).skip(dir.len() as int + 1) == part
        },
{
    reveal_strlit("/");
    if dir.len() > 0 && dir.last() != '/' {
        assert(inside(dir, part).take(dir.len() as int) =~= dir);
        assert(inside(dir, part).skip(dir.len() as int + 1) =~= part);
    }
}

/// The directory of a role lies under the supervisor's, under the data directory.
pub proof fn a_role_lives_under_the_supervisor(data_dir: Seq<char>, name: Seq<char>)
    requires
        data_dir.len() > 0,
        data_dir.last() != '/',
    ensures
        role_dir(data_dir, name) == data_dir + "/supervisor/"@ + name,
{
    reveal_strlit("/");
    reveal_strlit("supervisor");
    reveal_strlit("/supervisor/");
    let d = data_dir + "/"@ + "supervisor"@;
    assert(d.last() == 'r');
    assert(role_dir(data_dir, name) =~= data_dir + "/supervisor/"@ + name);
}

/// The body of a document is what follows its first rule, without the white space around it; a document
/// without a rule is all body.
pub proof fn the_body_follows_the_first_rule(doc: Seq<char>, k: int)
    ensures
        0 <= k && k + 5 <= doc.len() && doc.subrange(k, k + 5) == "\n---\n"@ && (forall|j: int|
            0 <= j < k ==> #[trigger] doc.subrange(j, j + 5) != "\n---\n"@) ==> body_of(doc) == text::trimmed(
            doc.subrange(k + 5, doc.len() as int),
        ),
        (forall|j: int| 0 <= j && j + 5 <= doc.len() ==> #[trigger] doc.subrange(j, j + 5) != "\n---\n"@) ==> body_of(doc)
            == text::trimmed(doc),
{
    reveal_strlit("\n---\n");
    assert("\n---\n"@.len() == 5);
    if 0 <= k && k + 5 <= doc.len() && doc.subrange(k, k + 5) == "\n---\n"@ && (forall|j: int|
        0 <= j < k ==> #[trigger] doc.subrange(j, j + 5) != "\n---\n"@) {
        text::the_first_place_is_found(doc, "\n---\n"@, k);
        assert(doc.skip(k + 5) =~= doc.subrange(k + 5, doc.len() as int));
    }
    if forall|j: int| 0 <= j && j + 5 <= doc.len() ==> #[trigger] doc.subrange(j, j + 5) != "\n---\n"@ {
        text::what_is_not_there_is_not_found(doc, "\n---\n"@);
    }
}

/// Opus is called by its name and everything else is fable; each is the other's other.
pub proof fn there_are_two_candidates(candidate: Seq<char>)
    ensures
        alias_of(candidate) == "opus"@ <==> candidate == "opus"@,
        alias_of(candidate) == "fable"@ <==> candidate != "opus"@,
        other_of(candidate) == "opus"@ <==> candidate == "fable"@,
        other_of(candidate) == "fable"@ <==> candidate != "fable"@,
{
    reveal_strlit("fable");
    reveal_strlit("opus");
    assert("fable"@.len() == 5 && "opus"@.len() == 4);
}

/// The manager runs on the stored persona. Where there is none it is seeded: from its bot's where that
/// is more than blanks, and from the embedded text otherwise; that is written with its hash, its source,
/// the hash of the embedded text and the moment, under the next version.
pub proof fn the_persona_comes_from_the_store_the_bot_or_the_binary(
    s: StoreView,
    now: Seq<char>,
    legacy: Option<Seq<char>>,
    embedded: Seq<char>,
    words: Seq<char>,
    fresh: bool,
    after: StoreView,
)
    requires
        taking_persona(s, now, legacy, embedded, words, fresh, after),
        s.supervisor is Some,
    ensures
        ({
            let was = s.supervisor->0;
            let none = was.persona_text is None || was.persona_text == Some(""@);
            let from_bot = legacy is Some && text::trimmed(legacy->0).len() > 0;
            let seed = if from_bot {
                legacy->0
            } else {
                embedded
            };
            &&& fresh <==> none
            &&& !none ==> after == s && words == was.persona_text->0
            &&& none ==> {
                &&& words == seed
                &&& after == (StoreView {
                    supervisor: Some(
                        SupervisorView {
                            persona_text: Some(seed),
                            persona_hash: Some(persona::hash_text(seed)),
                            persona_source: Some(
                                if from_bot {
                                    "legacy_bot"@
                                } else {
                                    "embedded"@
                                },
                            ),
                            persona_updated_at: Some(now),
                            persona_seed_hash: Some(persona::hash_text(embedded)),
                            persona_version: if was.persona_version == i64::MAX {
                                i64::MAX
                            } else {
                                (was.persona_version + 1) as i64
                            },
                            updated_at: now,
                            ..was
                        },
                    ),
                    ..s
                })
            }
        }),
{
    reveal_strlit("");
    assert(""@ =~= Seq::<char>::empty());
    assert(text::is_blank(""@));
}

/// Nothing is set up for an account that is not there, and nothing is changed where another bot has the
/// name. What is placed runs on the row's own model, effort and account, with the persona that the
/// manager runs on, under the ids on record.
pub proof fn the_manager_is_set_up_as_its_row_says(
    s: StoreView,
    now: Seq<char>,
    before: Seq<config::ProjectCfgView>,
    kind: Seq<char>,
    path: Seq<char>,
    identity_known: bool,
    legacy: Option<Seq<char>>,
    embedded: Seq<char>,
    fresh_project: Seq<char>,
    fresh_bot: Seq<char>,
    res: SetUp,
    projects: Seq<config::ProjectCfgView>,
    after: StoreView,
)
    requires
        setting_up(
            s,
            now,
            before,
            kind,
            path,
            identity_known,
            legacy,
            embedded,
            fresh_project,
            fresh_bot,
            res,
            projects,
            after,
        ),
        s.supervisor is Some,
    ensures
        ({
            let was = s.supervisor->0;
            &&& after == (StoreView { supervisor: after.supervisor, ..s })
            &&& res is IdentityMissing <==> !identity_known
            &&& !identity_known ==> res->identity == was.identity && after == s && projects == before
            &&& res is NameTaken ==> projects == before
            &&& identity_known ==> exists|words: Seq<char>, fresh: bool| #[trigger]
                taking_persona(s, now, legacy, embedded, words, fresh, after) && {
                    let p = PlacementView {
                        name: "AGM"@,
                        kind,
                        first_project: was.project_id,
                        second_project: None,
                        path,
                        known_bot: was.bot_id,
                        fresh_project,
                        fresh_bot,
                        model: if was.active_model == "opus"@ {
                            "opus"@
                        } else {
                            "fable"@
                        },
                        effort: was.effort,
                        identity: was.identity,
                        persona: words,
                        remote_name: Some("AGM"@),
                    };
                    &&& res is NameTaken <==> config::name_is_taken(config::target(before, p), p)
                    &&& res is Done ==> {
                        &&& projects == config::placed(before, p)
                        &&& res->persona == words
                        &&& res->seeded == fresh
                        &&& res->bot_id == config::placed_bot(config::target(before, p), p)
                        &&& res->project_id == match config::target(before, p).id {
                            Some(id) => id,
                            None => fresh_project,
                        }
                    }
                }
        }),
{
    let was = row_of(s, now);
    let words = running_on(seeded(was, legacy, embedded, now).persona_text, embedded);
    let fresh = store::unset(was.persona_text);
    if identity_known {
        assert(taking_persona(s, now, legacy, embedded, words, fresh, after));
    }
}

/// Of the files of a role only the handoff notes are kept where they are there already, and only the
/// command line tool can be run; the settings are written in a readable form.
pub proof fn the_handoff_notes_belong_to_the_bot(
    dir: Seq<char>,
    notes_name: Seq<char>,
    notes: Seq<char>,
    persona: Seq<char>,
    runtime: Seq<char>,
    handoff: Seq<char>,
    cli: Seq<char>,
)
    ensures
        ({
            let files = role_files_of(dir, notes_name, notes, persona, runtime, handoff, cli);
            &&& files.len() == 5
            &&& forall|i: int| 0 <= i < 5 ==> ((#[trigger] files[i]).keep <==> i == 3) && (files[i].executable <==> i == 4)
            &&& files[0].path == inside(dir, notes_name) && files[0].content == notes
            &&& files[1].path == inside(dir, "persona.md"@) && files[1].content == persona
            &&& files[2].path == inside(dir, "runtime.json"@) && files[2].content == json::json_pretty(runtime)
            &&& files[3].path == inside(dir, "handoff.md"@) && files[3].content == handoff
            &&& files[4].path == inside(dir, "bin/agm"@) && files[4].content == cli
        }),
{
}

/// The tool is told where the daemon answers, whose it is and where the data lies.
pub proof fn the_tool_is_told_where_the_daemon_answers(port: u16, bot_id: Seq<char>, data_dir: Seq<char>)
    ensures
        ({
            let m = runtime_members(port, bot_id, data_dir);
            &&& m.len() == 6
            &&& m[0] == ("daemon_url"@, json::FieldView::Str("http://127.0.0.1:"@ + text::digits(port as nat)))
            &&& m[1] == ("manager_bot_id"@, json::FieldView::Str(bot_id))
            &&& m[2] == ("bot_id"@, json::FieldView::Str(bot_id))
            &&& m[3] == ("data_dir"@, json::FieldView::Str(data_dir))
            &&& m[4] == ("supervisor_id"@, json::FieldView::Str("AGM"@))
            &&& m[5] == ("remote_name"@, json::FieldView::Str("AGM"@))
        }),
{
}

/// A refusal to set up names its reason, and the account that is missing or the name that is taken.
pub proof fn a_refusal_to_set_up_names_what_is_wrong(e: SetupError)
    ensures
        ({
            let m = refusal_members(e);
            &&& e matches SetupError::IdentityMissing { identity } ==> m.contains(
                ("reason"@, json::FieldView::Str("identity_missing"@)),
            ) && m.contains(("identity"@, json::FieldView::Str(identity@))) && refusal_words(e)
                == "supervisor identity is not configured on this host"@
            &&& e is NameTaken ==> m.contains(("reason"@, json::FieldView::Str("name_taken"@))) && m.contains(
                ("name"@, json::FieldView::Str("AGM"@)),
            ) && refusal_words(e) == "a different bot is already called AGM in the supervisor project"@
        }),
{
    let m = refusal_members(e);
    assert(m[0].0 == "reason"@);
    assert(m[1].0 == m[1].0);
}

} // verus!
